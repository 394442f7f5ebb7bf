//! The attribute rewriting that turns a console enum into a `clap` parser:
//! which attributes are refused, which are consumed, and which are written.
//!
//! The enum is modelled by its attributes and the shape of its variants;
//! attributes the rewriting leaves alone, and the literals it moves, are
//! known by number.

use vstd::prelude::*;

verus! {

/// An argument of a variant's `#[console(..)]` attribute.
#[derive(Clone, Copy, Debug, PartialEq, Eq)]
pub enum ConsoleArg {
    /// `name = "..."`, the literal known by number.
    Name(u64),
    /// Any other argument.
    Unsupported,
}

/// An argument of a field's `#[arg(..)]` attribute.
#[derive(Clone, Copy, Debug, PartialEq, Eq)]
pub enum FieldArg {
    /// `default = ...`, the expression known by number.
    Default(u64),
    /// Any other argument.
    Unsupported,
}

/// An attribute the rewriting writes.
#[derive(Clone, Copy, Debug, PartialEq, Eq)]
pub enum Generated {
    /// `#[derive(clap::Parser)]`
    DeriveParser,
    /// `#[command(arg_required_else_help = true)]`
    ArgRequiredElseHelp,
    /// `#[command(bin_name = "console")]`
    BinName,
    /// `#[command(disable_help_subcommand = true)]`
    DisableHelpSubcommand,
    /// `#[command(multicall = true)]`
    Multicall,
    /// `#[command(name = "console")]`
    ConsoleName,
    /// `#[command(rename_all = "snake_case")]`
    RenameAll,
    /// `#[command(verbatim_doc_comment)]`
    VerbatimDocComment,
    /// `#[command(name = ..)]` with a custom name.
    CommandName(u64),
    /// `#[arg(default_value_t = ..)]` with a default.
    DefaultValue(u64),
    /// `#[arg(action = ArgAction::Set)]`
    ActionSet,
    /// `#[arg(required = true)]`
    Required,
}

/// An attribute of the enum, a variant or a field.
#[derive(Debug, PartialEq, Eq)]
pub enum Attribute {
    /// `#[command(..)]`
    Command,
    /// `#[console(..)]` with its arguments.
    Console(Vec<ConsoleArg>),
    /// `#[arg(..)]` with its arguments.
    Arg(Vec<FieldArg>),
    /// Any other attribute, known by number.
    Other(u64),
    /// An attribute the rewriting wrote.
    Generated(Generated),
}

/// The value of an [`Attribute`].
pub enum AttributeView {
    Command,
    Console(Seq<ConsoleArg>),
    Arg(Seq<FieldArg>),
    Other(u64),
    Generated(Generated),
}

impl View for Attribute {
    type V = AttributeView;

    open spec fn view(&self) -> AttributeView {
        match self {
            Attribute::Command => AttributeView::Command,
            Attribute::Console(args) => AttributeView::Console(args@),
            Attribute::Arg(args) => AttributeView::Arg(args@),
            Attribute::Other(id) => AttributeView::Other(*id),
            Attribute::Generated(g) => AttributeView::Generated(*g),
        }
    }
}

/// The values of a list of attributes.
pub open spec fn attrs_view(attrs: Seq<Attribute>) -> Seq<AttributeView> {
    attrs.map_values(|a: Attribute| a@)
}

/// A named field of a variant.
#[derive(Debug, PartialEq, Eq)]
pub struct Field {
    pub attrs: Vec<Attribute>,
}

/// The fields of a variant.
#[derive(Debug, PartialEq, Eq)]
pub enum Fields {
    Unit,
    Named(Vec<Field>),
    /// Fields without names, as many as given.
    Unnamed(usize),
}

/// A variant of the enum.
#[derive(Debug, PartialEq, Eq)]
pub struct Variant {
    pub attrs: Vec<Attribute>,
    pub fields: Fields,
}

/// The console enum.
#[derive(Debug, PartialEq, Eq)]
pub struct EnumDecl {
    pub attrs: Vec<Attribute>,
    pub variants: Vec<Variant>,
}

/// The value of a [`Field`].
pub struct FieldView {
    pub attrs: Seq<AttributeView>,
}

/// The value of [`Fields`].
pub enum FieldsView {
    Unit,
    Named(Seq<FieldView>),
    Unnamed(usize),
}

/// The value of a [`Variant`].
pub struct VariantView {
    pub attrs: Seq<AttributeView>,
    pub fields: FieldsView,
}

/// The value of an [`EnumDecl`].
pub struct EnumView {
    pub attrs: Seq<AttributeView>,
    pub variants: Seq<VariantView>,
}

impl View for Field {
    type V = FieldView;

    open spec fn view(&self) -> FieldView {
        FieldView { attrs: attrs_view(self.attrs@) }
    }
}

/// The values of a list of fields.
pub open spec fn fields_view(fields: Seq<Field>) -> Seq<FieldView> {
    fields.map_values(|f: Field| f@)
}

impl View for Fields {
    type V = FieldsView;

    open spec fn view(&self) -> FieldsView {
        match self {
            Fields::Unit => FieldsView::Unit,
            Fields::Named(fields) => FieldsView::Named(fields_view(fields@)),
            Fields::Unnamed(n) => FieldsView::Unnamed(*n),
        }
    }
}

impl View for Variant {
    type V = VariantView;

    open spec fn view(&self) -> VariantView {
        VariantView { attrs: attrs_view(self.attrs@), fields: self.fields@ }
    }
}

/// The values of a list of variants.
pub open spec fn variants_view(variants: Seq<Variant>) -> Seq<VariantView> {
    variants.map_values(|v: Variant| v@)
}

impl View for EnumDecl {
    type V = EnumView;

    open spec fn view(&self) -> EnumView {
        EnumView { attrs: attrs_view(self.attrs@), variants: variants_view(self.variants@) }
    }
}

/// Why an enum cannot be made a console.
#[derive(Clone, Copy, Debug, PartialEq, Eq)]
pub enum ConsoleError {
    /// `#[command]` is written by the rewriting; the enum or a variant used it.
    CommandUsed,
    /// A variant has fields without names.
    TupleVariant,
    /// `#[console(..)]` was given an argument other than `name`.
    UnsupportedConsoleArgument,
    /// `#[arg(..)]` was given an argument other than `default`.
    UnsupportedArgArgument,
}

/// Applies `step` to each element in turn, from `init`, stopping at the
/// first error.
pub open spec fn fold_result<A, S>(
    s: Seq<A>,
    init: S,
    step: spec_fn(S, A) -> Result<S, ConsoleError>,
) -> Result<S, ConsoleError>
    decreases s.len(),
{
    if s.len() == 0 {
        Ok(init)
    } else {
        match fold_result(s.drop_last(), init, step) {
            Ok(state) => step(state, s.last()),
            Err(e) => Err(e),
        }
    }
}

/// One more element folded.
proof fn lemma_fold_next<A, S>(
    s: Seq<A>,
    init: S,
    step: spec_fn(S, A) -> Result<S, ConsoleError>,
    k: int,
)
    requires
        0 <= k < s.len(),
    ensures
        fold_result(s.take(k + 1), init, step) == match fold_result(s.take(k), init, step) {
            Ok(state) => step(state, s[k]),
            Err(e) => Err(e),
        },
{
    assert(s.take(k + 1).drop_last() =~= s.take(k));
}

/// An error in a prefix is the error of the whole.
proof fn lemma_fold_err<A, S>(
    s: Seq<A>,
    init: S,
    step: spec_fn(S, A) -> Result<S, ConsoleError>,
    k: int,
)
    requires
        0 <= k <= s.len(),
        fold_result(s.take(k), init, step) is Err,
    ensures
        fold_result(s, init, step) == fold_result(s.take(k), init, step),
    decreases s.len() - k,
{
    if k < s.len() {
        lemma_fold_next(s, init, step, k);
        lemma_fold_err(s, init, step, k + 1);
    } else {
        assert(s.take(k) =~= s);
    }
}

/// The custom name after one more argument of `#[console(..)]`.
pub open spec fn console_step() -> spec_fn(Option<u64>, ConsoleArg) -> Result<
    Option<u64>,
    ConsoleError,
> {
    |name: Option<u64>, arg: ConsoleArg|
        match arg {
            ConsoleArg::Name(id) => Ok(Some(id)),
            ConsoleArg::Unsupported => Err(ConsoleError::UnsupportedConsoleArgument),
        }
}

/// The default after one more argument of `#[arg(..)]`.
pub open spec fn arg_step() -> spec_fn(Option<u64>, FieldArg) -> Result<Option<u64>, ConsoleError> {
    |default: Option<u64>, arg: FieldArg|
        match arg {
            FieldArg::Default(id) => Ok(Some(id)),
            FieldArg::Unsupported => Err(ConsoleError::UnsupportedArgArgument),
        }
}

/// A variant's kept attributes and custom name after one more attribute:
/// `console` is consumed for its name, `command` is refused, any other is
/// kept.
pub open spec fn variant_attr_step() -> spec_fn(
    (Seq<AttributeView>, Option<u64>),
    AttributeView,
) -> Result<(Seq<AttributeView>, Option<u64>), ConsoleError> {
    |state: (Seq<AttributeView>, Option<u64>), attr: AttributeView|
        match attr {
            AttributeView::Console(args) => match fold_result(args, state.1, console_step()) {
                Ok(name) => Ok((state.0, name)),
                Err(e) => Err(e),
            },
            AttributeView::Command => Err(ConsoleError::CommandUsed),
            _ => Ok((state.0.push(attr), state.1)),
        }
}

/// A field's kept attributes and default after one more attribute: `arg` is
/// consumed for its default, any other is kept.
pub open spec fn field_attr_step() -> spec_fn(
    (Seq<AttributeView>, Option<u64>),
    AttributeView,
) -> Result<(Seq<AttributeView>, Option<u64>), ConsoleError> {
    |state: (Seq<AttributeView>, Option<u64>), attr: AttributeView|
        match attr {
            AttributeView::Arg(args) => match fold_result(args, state.1, arg_step()) {
                Ok(default) => Ok((state.0, default)),
                Err(e) => Err(e),
            },
            _ => Ok((state.0.push(attr), state.1)),
        }
}

/// A field rewritten: its `arg` attributes replaced by the default they
/// give, if any, then `action = Set` and `required = true`.
pub open spec fn spec_field(field: FieldView) -> Result<FieldView, ConsoleError> {
    match fold_result(field.attrs, (Seq::empty(), None), field_attr_step()) {
        Ok((kept, default)) => Ok(
            FieldView {
                attrs: kept + (match default {
                    Some(d) => seq![AttributeView::Generated(Generated::DefaultValue(d))],
                    None => Seq::empty(),
                }) + seq![
                    AttributeView::Generated(Generated::ActionSet),
                    AttributeView::Generated(Generated::Required),
                ],
            },
        ),
        Err(e) => Err(e),
    }
}

/// The fields rewritten so far, after one more.
pub open spec fn field_step() -> spec_fn(Seq<FieldView>, FieldView) -> Result<
    Seq<FieldView>,
    ConsoleError,
> {
    |done: Seq<FieldView>, field: FieldView|
        match spec_field(field) {
            Ok(f) => Ok(done.push(f)),
            Err(e) => Err(e),
        }
}

/// Whether a variant has fields.
pub open spec fn has_fields(fields: FieldsView) -> bool {
    match fields {
        FieldsView::Unit => false,
        FieldsView::Named(fs) => fs.len() > 0,
        FieldsView::Unnamed(n) => n > 0,
    }
}

/// The attributes written after a variant's kept ones.
pub open spec fn variant_tail(fields: FieldsView, name: Option<u64>) -> Seq<AttributeView> {
    (if has_fields(fields) {
        seq![AttributeView::Generated(Generated::ArgRequiredElseHelp)]
    } else {
        Seq::empty()
    }) + (match name {
        Some(n) => seq![AttributeView::Generated(Generated::CommandName(n))],
        None => Seq::empty(),
    }) + seq![AttributeView::Generated(Generated::VerbatimDocComment)]
}

/// A variant rewritten: refused when its fields have no names; else its
/// `console` attributes replaced by the name they give, then
/// `arg_required_else_help` when it has fields, the name if one was given,
/// and `verbatim_doc_comment`; then its fields rewritten.
pub open spec fn spec_variant(variant: VariantView) -> Result<VariantView, ConsoleError> {
    match variant.fields {
        FieldsView::Unnamed(_) => Err(ConsoleError::TupleVariant),
        _ => match fold_result(variant.attrs, (Seq::empty(), None), variant_attr_step()) {
            Err(e) => Err(e),
            Ok((kept, name)) => {
                let attrs = kept + variant_tail(variant.fields, name);
                match variant.fields {
                    FieldsView::Named(fs) => match fold_result(fs, Seq::empty(), field_step()) {
                        Ok(done) => Ok(VariantView { attrs, fields: FieldsView::Named(done) }),
                        Err(e) => Err(e),
                    },
                    _ => Ok(VariantView { attrs, fields: variant.fields }),
                }
            },
        },
    }
}

/// The variants rewritten so far, after one more.
pub open spec fn variant_step() -> spec_fn(Seq<VariantView>, VariantView) -> Result<
    Seq<VariantView>,
    ConsoleError,
> {
    |done: Seq<VariantView>, variant: VariantView|
        match spec_variant(variant) {
            Ok(v) => Ok(done.push(v)),
            Err(e) => Err(e),
        }
}

/// The attributes written after the enum's own.
pub open spec fn enum_tail() -> Seq<AttributeView> {
    seq![
        AttributeView::Generated(Generated::DeriveParser),
        AttributeView::Generated(Generated::ArgRequiredElseHelp),
        AttributeView::Generated(Generated::BinName),
        AttributeView::Generated(Generated::DisableHelpSubcommand),
        AttributeView::Generated(Generated::Multicall),
        AttributeView::Generated(Generated::ConsoleName),
        AttributeView::Generated(Generated::RenameAll),
        AttributeView::Generated(Generated::VerbatimDocComment),
    ]
}

/// The console enum rewritten: refused when the enum uses `command`; else
/// its attributes followed by the `clap` parser's, and its variants
/// rewritten in order, the first refusal being the answer.
pub open spec fn spec_console_attributes(e: EnumView) -> Result<EnumView, ConsoleError> {
    if e.attrs.contains(AttributeView::Command) {
        Err(ConsoleError::CommandUsed)
    } else {
        match fold_result(e.variants, Seq::empty(), variant_step()) {
            Ok(vs) => Ok(EnumView { attrs: e.attrs + enum_tail(), variants: vs }),
            Err(err) => Err(err),
        }
    }
}

/// The custom name after the arguments of one `#[console(..)]`, from `name`.
fn console_name(args: &Vec<ConsoleArg>, name: Option<u64>) -> (r: Result<Option<u64>, ConsoleError>)
    ensures
        r == fold_result(args@, name, console_step()),
{
    let mut state = name;
    let mut i: usize = 0;
    assert(args@.take(0) =~= Seq::<ConsoleArg>::empty());
    while i < args.len()
        invariant
            0 <= i <= args@.len(),
            fold_result(args@.take(i as int), name, console_step()) == Ok::<
                Option<u64>,
                ConsoleError,
            >(state),
        decreases args@.len() - i,
    {
        proof {
            lemma_fold_next(args@, name, console_step(), i as int);
        }
        match args[i] {
            ConsoleArg::Name(id) => {
                state = Some(id);
            },
            ConsoleArg::Unsupported => {
                proof {
                    lemma_fold_err(args@, name, console_step(), i + 1);
                }
                return Err(ConsoleError::UnsupportedConsoleArgument);
            },
        }
        i = i + 1;
    }
    assert(args@.take(i as int) =~= args@);
    Ok(state)
}

/// The default after the arguments of one `#[arg(..)]`, from `default`.
fn arg_default(args: &Vec<FieldArg>, default: Option<u64>) -> (r: Result<
    Option<u64>,
    ConsoleError,
>)
    ensures
        r == fold_result(args@, default, arg_step()),
{
    let mut state = default;
    let mut i: usize = 0;
    assert(args@.take(0) =~= Seq::<FieldArg>::empty());
    while i < args.len()
        invariant
            0 <= i <= args@.len(),
            fold_result(args@.take(i as int), default, arg_step()) == Ok::<
                Option<u64>,
                ConsoleError,
            >(state),
        decreases args@.len() - i,
    {
        proof {
            lemma_fold_next(args@, default, arg_step(), i as int);
        }
        match args[i] {
            FieldArg::Default(id) => {
                state = Some(id);
            },
            FieldArg::Unsupported => {
                proof {
                    lemma_fold_err(args@, default, arg_step(), i + 1);
                }
                return Err(ConsoleError::UnsupportedArgArgument);
            },
        }
        i = i + 1;
    }
    assert(args@.take(i as int) =~= args@);
    Ok(state)
}

/// Pushing an attribute pushes its value.
proof fn lemma_attrs_push(attrs: Seq<Attribute>, a: Attribute)
    ensures
        attrs_view(attrs.push(a)) == attrs_view(attrs).push(a@),
{
    assert(attrs_view(attrs.push(a)) =~= attrs_view(attrs).push(a@));
}

/// A variant's attributes with its `console` ones consumed.
fn variant_attrs(attrs: Vec<Attribute>) -> (r: Result<(Vec<Attribute>, Option<u64>), ConsoleError>)
    ensures
        match r {
            Ok((kept, name)) => fold_result(
                attrs_view(attrs@),
                (Seq::empty(), None),
                variant_attr_step(),
            ) == Ok::<(Seq<AttributeView>, Option<u64>), ConsoleError>((attrs_view(kept@), name)),
            Err(e) => fold_result(attrs_view(attrs@), (Seq::empty(), None), variant_attr_step())
                == Err::<(Seq<AttributeView>, Option<u64>), ConsoleError>(e),
        },
{
    let ghost initial = attrs@;
    let ghost s = attrs_view(initial);
    let ghost init: (Seq<AttributeView>, Option<u64>) = (Seq::empty(), None);
    let n: usize = attrs.len();
    let mut rest = attrs;
    let mut kept: Vec<Attribute> = Vec::new();
    let mut name: Option<u64> = None;
    let mut i: usize = 0;
    assert(s.take(0) =~= Seq::<AttributeView>::empty());
    assert(attrs_view(kept@) =~= Seq::<AttributeView>::empty());
    while rest.len() > 0
        invariant
            i <= initial.len(),
            initial.len() == n,
            initial == attrs@,
            rest@ == initial.skip(i as int),
            s == attrs_view(initial),
            s.len() == initial.len(),
            init == (Seq::<AttributeView>::empty(), None::<u64>),
            fold_result(s.take(i as int), init, variant_attr_step()) == Ok::<
                (Seq<AttributeView>, Option<u64>),
                ConsoleError,
            >((attrs_view(kept@), name)),
        decreases rest@.len(),
    {
        let a = rest.remove(0);
        assert(a == initial[i as int]);
        assert(s[i as int] == a@);
        proof {
            lemma_fold_next(s, init, variant_attr_step(), i as int);
        }
        match a {
            Attribute::Console(args) => {
                match console_name(&args, name) {
                    Ok(n) => {
                        name = n;
                    },
                    Err(e) => {
                        proof {
                            lemma_fold_err(s, init, variant_attr_step(), i + 1);
                        }
                        return Err(e);
                    },
                }
            },
            Attribute::Command => {
                proof {
                    lemma_fold_err(s, init, variant_attr_step(), i + 1);
                }
                return Err(ConsoleError::CommandUsed);
            },
            other => {
                proof {
                    lemma_attrs_push(kept@, other);
                }
                kept.push(other);
            },
        }
        i = i + 1;
        assert(rest@ =~= initial.skip(i as int));
    }
    assert(s.take(i as int) =~= s);
    Ok((kept, name))
}

/// A field's attributes with its `arg` ones consumed.
fn field_attrs(attrs: Vec<Attribute>) -> (r: Result<(Vec<Attribute>, Option<u64>), ConsoleError>)
    ensures
        match r {
            Ok((kept, default)) => fold_result(
                attrs_view(attrs@),
                (Seq::empty(), None),
                field_attr_step(),
            ) == Ok::<(Seq<AttributeView>, Option<u64>), ConsoleError>((attrs_view(kept@), default)),
            Err(e) => fold_result(attrs_view(attrs@), (Seq::empty(), None), field_attr_step())
                == Err::<(Seq<AttributeView>, Option<u64>), ConsoleError>(e),
        },
{
    let ghost initial = attrs@;
    let ghost s = attrs_view(initial);
    let ghost init: (Seq<AttributeView>, Option<u64>) = (Seq::empty(), None);
    let n: usize = attrs.len();
    let mut rest = attrs;
    let mut kept: Vec<Attribute> = Vec::new();
    let mut default: Option<u64> = None;
    let mut i: usize = 0;
    assert(s.take(0) =~= Seq::<AttributeView>::empty());
    assert(attrs_view(kept@) =~= Seq::<AttributeView>::empty());
    while rest.len() > 0
        invariant
            i <= initial.len(),
            initial.len() == n,
            initial == attrs@,
            rest@ == initial.skip(i as int),
            s == attrs_view(initial),
            s.len() == initial.len(),
            init == (Seq::<AttributeView>::empty(), None::<u64>),
            fold_result(s.take(i as int), init, field_attr_step()) == Ok::<
                (Seq<AttributeView>, Option<u64>),
                ConsoleError,
            >((attrs_view(kept@), default)),
        decreases rest@.len(),
    {
        let a = rest.remove(0);
        assert(a == initial[i as int]);
        assert(s[i as int] == a@);
        proof {
            lemma_fold_next(s, init, field_attr_step(), i as int);
        }
        match a {
            Attribute::Arg(args) => {
                match arg_default(&args, default) {
                    Ok(d) => {
                        default = d;
                    },
                    Err(e) => {
                        proof {
                            lemma_fold_err(s, init, field_attr_step(), i + 1);
                        }
                        return Err(e);
                    },
                }
            },
            other => {
                proof {
                    lemma_attrs_push(kept@, other);
                }
                kept.push(other);
            },
        }
        i = i + 1;
        assert(rest@ =~= initial.skip(i as int));
    }
    assert(s.take(i as int) =~= s);
    Ok((kept, default))
}

/// A field rewritten.
fn field(f: Field) -> (r: Result<Field, ConsoleError>)
    ensures
        match r {
            Ok(g) => spec_field(f@) == Ok::<FieldView, ConsoleError>(g@),
            Err(e) => spec_field(f@) == Err::<FieldView, ConsoleError>(e),
        },
{
    match field_attrs(f.attrs) {
        Err(e) => Err(e),
        Ok((kept, default)) => {
            let ghost k = attrs_view(kept@);
            let mut attrs = kept;
            match default {
                Some(d) => {
                    attrs.push(Attribute::Generated(Generated::DefaultValue(d)));
                },
                None => {},
            }
            attrs.push(Attribute::Generated(Generated::ActionSet));
            attrs.push(Attribute::Generated(Generated::Required));
            assert(attrs_view(attrs@) =~= k + (match default {
                Some(d) => seq![AttributeView::Generated(Generated::DefaultValue(d))],
                None => Seq::<AttributeView>::empty(),
            }) + seq![
                AttributeView::Generated(Generated::ActionSet),
                AttributeView::Generated(Generated::Required),
            ]);
            Ok(Field { attrs })
        },
    }
}

/// The named fields of a variant rewritten, in order.
fn fields(fs: Vec<Field>) -> (r: Result<Vec<Field>, ConsoleError>)
    ensures
        match r {
            Ok(done) => fold_result(fields_view(fs@), Seq::empty(), field_step()) == Ok::<
                Seq<FieldView>,
                ConsoleError,
            >(fields_view(done@)),
            Err(e) => fold_result(fields_view(fs@), Seq::empty(), field_step()) == Err::<
                Seq<FieldView>,
                ConsoleError,
            >(e),
        },
{
    let ghost initial = fs@;
    let ghost s = fields_view(initial);
    let n: usize = fs.len();
    let mut rest = fs;
    let mut done: Vec<Field> = Vec::new();
    let mut i: usize = 0;
    assert(s.take(0) =~= Seq::<FieldView>::empty());
    assert(fields_view(done@) =~= Seq::<FieldView>::empty());
    while rest.len() > 0
        invariant
            i <= initial.len(),
            initial.len() == n,
            initial == fs@,
            rest@ == initial.skip(i as int),
            s == fields_view(initial),
            s.len() == initial.len(),
            fold_result(s.take(i as int), Seq::empty(), field_step()) == Ok::<
                Seq<FieldView>,
                ConsoleError,
            >(fields_view(done@)),
        decreases rest@.len(),
    {
        let f = rest.remove(0);
        assert(f == initial[i as int]);
        assert(s[i as int] == f@);
        proof {
            lemma_fold_next(s, Seq::empty(), field_step(), i as int);
        }
        match field(f) {
            Ok(g) => {
                let ghost before = done@;
                done.push(g);
                assert(fields_view(done@) =~= fields_view(before).push(g@));
            },
            Err(e) => {
                proof {
                    lemma_fold_err(s, Seq::empty(), field_step(), i + 1);
                }
                return Err(e);
            },
        }
        i = i + 1;
        assert(rest@ =~= initial.skip(i as int));
    }
    assert(s.take(i as int) =~= s);
    Ok(done)
}

/// A variant rewritten.
fn variant(v: Variant) -> (r: Result<Variant, ConsoleError>)
    ensures
        match r {
            Ok(w) => spec_variant(v@) == Ok::<VariantView, ConsoleError>(w@),
            Err(e) => spec_variant(v@) == Err::<VariantView, ConsoleError>(e),
        },
{
    let ghost fields_before = v.fields@;
    let has = match &v.fields {
        Fields::Unit => false,
        Fields::Named(fs) => fs.len() > 0,
        Fields::Unnamed(_) => {
            return Err(ConsoleError::TupleVariant);
        },
    };
    match variant_attrs(v.attrs) {
        Err(e) => Err(e),
        Ok((kept, name)) => {
            let ghost k = attrs_view(kept@);
            let mut attrs = kept;
            if has {
                attrs.push(Attribute::Generated(Generated::ArgRequiredElseHelp));
            }
            match name {
                Some(n) => {
                    attrs.push(Attribute::Generated(Generated::CommandName(n)));
                },
                None => {},
            }
            attrs.push(Attribute::Generated(Generated::VerbatimDocComment));
            assert(attrs_view(attrs@) =~= k + variant_tail(fields_before, name));
            match v.fields {
                Fields::Named(fs) => match fields(fs) {
                    Ok(done) => Ok(Variant { attrs, fields: Fields::Named(done) }),
                    Err(e) => Err(e),
                },
                other => Ok(Variant { attrs, fields: other }),
            }
        },
    }
}

/// Rewrites a console enum for the `clap` parser: refuses `command`
/// attributes, variants with unnamed fields and unknown arguments of
/// `console` and `arg`, consumes those attributes, and writes the parser's.
pub fn console_attributes(input: EnumDecl) -> (r: Result<EnumDecl, ConsoleError>)
    ensures
        match r {
            Ok(e) => spec_console_attributes(input@) == Ok::<EnumView, ConsoleError>(e@),
            Err(err) => spec_console_attributes(input@) == Err::<EnumView, ConsoleError>(err),
        },
{
    let ghost attrs_before = attrs_view(input.attrs@);
    let mut j: usize = 0;
    while j < input.attrs.len()
        invariant
            0 <= j <= input.attrs@.len(),
            attrs_before == attrs_view(input.attrs@),
            forall|k: int| 0 <= k < j ==> attrs_before[k] != AttributeView::Command,
        decreases input.attrs@.len() - j,
    {
        if matches!(input.attrs[j], Attribute::Command) {
            assert(attrs_before[j as int] == AttributeView::Command);
            return Err(ConsoleError::CommandUsed);
        }
        j = j + 1;
    }
    assert(!attrs_before.contains(AttributeView::Command));
    let mut attrs = input.attrs;
    let ghost initial = input.variants@;
    let ghost s = variants_view(initial);
    let n: usize = input.variants.len();
    let mut rest = input.variants;
    let mut done: Vec<Variant> = Vec::new();
    let mut i: usize = 0;
    assert(s.take(0) =~= Seq::<VariantView>::empty());
    assert(variants_view(done@) =~= Seq::<VariantView>::empty());
    while rest.len() > 0
        invariant
            i <= initial.len(),
            initial.len() == n,
            rest@ == initial.skip(i as int),
            s == variants_view(initial),
            s == input@.variants,
            attrs_view(attrs@) == input@.attrs,
            !input@.attrs.contains(AttributeView::Command),
            s.len() == initial.len(),
            fold_result(s.take(i as int), Seq::empty(), variant_step()) == Ok::<
                Seq<VariantView>,
                ConsoleError,
            >(variants_view(done@)),
        decreases rest@.len(),
    {
        let v = rest.remove(0);
        assert(v == initial[i as int]);
        assert(s[i as int] == v@);
        proof {
            lemma_fold_next(s, Seq::empty(), variant_step(), i as int);
        }
        match variant(v) {
            Ok(w) => {
                let ghost before = done@;
                done.push(w);
                assert(variants_view(done@) =~= variants_view(before).push(w@));
            },
            Err(e) => {
                proof {
                    lemma_fold_err(s, Seq::empty(), variant_step(), i + 1);
                }
                return Err(e);
            },
        }
        i = i + 1;
        assert(rest@ =~= initial.skip(i as int));
    }
    assert(s.take(i as int) =~= s);
    let ghost k = attrs_view(attrs@);
    attrs.push(Attribute::Generated(Generated::DeriveParser));
    attrs.push(Attribute::Generated(Generated::ArgRequiredElseHelp));
    attrs.push(Attribute::Generated(Generated::BinName));
    attrs.push(Attribute::Generated(Generated::DisableHelpSubcommand));
    attrs.push(Attribute::Generated(Generated::Multicall));
    attrs.push(Attribute::Generated(Generated::ConsoleName));
    attrs.push(Attribute::Generated(Generated::RenameAll));
    attrs.push(Attribute::Generated(Generated::VerbatimDocComment));
    assert(attrs_view(attrs@) =~= k + enum_tail());
    Ok(EnumDecl { attrs, variants: done })
}

/// A fold goes through exactly when each element is one its step accepts,
/// where whether a step fails depends on the element alone.
proof fn lemma_fold_ok<A, S>(
    s: Seq<A>,
    init: S,
    step: spec_fn(S, A) -> Result<S, ConsoleError>,
    ok: spec_fn(A) -> bool,
)
    requires
        forall|state: S, a: A| #[trigger] step(state, a) is Ok <==> ok(a),
    ensures
        fold_result(s, init, step) is Ok <==> forall|k: int| 0 <= k < s.len() ==> ok(s[k]),
    decreases s.len(),
{
    if s.len() > 0 {
        let init_part = s.drop_last();
        lemma_fold_ok(init_part, init, step, ok);
        assert forall|k: int| 0 <= k < init_part.len() implies init_part[k] == s[k] by {}
        if let Ok(state) = fold_result(init_part, init, step) {
            assert(step(state, s.last()) is Ok <==> ok(s.last()));
        }
        if !(forall|k: int| 0 <= k < init_part.len() ==> ok(init_part[k])) {
            let k = choose|k: int| 0 <= k < init_part.len() && !ok(init_part[k]);
            assert(!ok(s[k]));
        }
        assert(s[s.len() - 1] == s.last());
    }
}

/// An argument `console` accepts: `name`.
pub open spec fn console_arg_ok(arg: ConsoleArg) -> bool {
    arg is Name
}

/// An argument `arg` accepts: `default`.
pub open spec fn field_arg_ok(arg: FieldArg) -> bool {
    arg is Default
}

/// A variant attribute that is accepted: not `command`, and a `console`
/// one only with accepted arguments.
pub open spec fn variant_attr_ok(attr: AttributeView) -> bool {
    match attr {
        AttributeView::Command => false,
        AttributeView::Console(args) => forall|k: int| 0 <= k < args.len() ==> console_arg_ok(args[k]),
        _ => true,
    }
}

/// A field attribute that is accepted: an `arg` one only with accepted
/// arguments.
pub open spec fn field_attr_ok(attr: AttributeView) -> bool {
    match attr {
        AttributeView::Arg(args) => forall|k: int| 0 <= k < args.len() ==> field_arg_ok(args[k]),
        _ => true,
    }
}

/// A field whose attributes are all accepted.
pub open spec fn field_ok(field: FieldView) -> bool {
    forall|k: int| 0 <= k < field.attrs.len() ==> field_attr_ok(field.attrs[k])
}

/// A variant that is accepted: its fields have names, and its attributes and
/// its fields are accepted.
pub open spec fn variant_ok(variant: VariantView) -> bool {
    &&& !(variant.fields is Unnamed)
    &&& forall|k: int| 0 <= k < variant.attrs.len() ==> variant_attr_ok(variant.attrs[k])
    &&& variant.fields matches FieldsView::Named(fs) ==> forall|k: int|
        0 <= k < fs.len() ==> field_ok(fs[k])
}

/// An enum that is accepted: it uses no `command` attribute, and its
/// variants are accepted.
pub open spec fn console_ok(e: EnumView) -> bool {
    &&& !e.attrs.contains(AttributeView::Command)
    &&& forall|k: int| 0 <= k < e.variants.len() ==> variant_ok(e.variants[k])
}

/// The rewriting refuses an enum exactly when it uses `command`, a variant
/// uses `command` or has unnamed fields, or `console` or `arg` is given an
/// argument other than `name` or `default`.
pub proof fn law_console_refusals(e: EnumView)
    ensures
        spec_console_attributes(e) is Ok <==> console_ok(e),
{
    assert forall|state: Option<u64>, a: ConsoleArg| #[trigger] console_step()(state, a) is Ok
        <==> (|x: ConsoleArg| console_arg_ok(x))(a) by {}
    assert forall|state: Option<u64>, a: FieldArg| #[trigger] arg_step()(state, a) is Ok <==> (|
        x: FieldArg,
    | field_arg_ok(x))(a) by {}
    assert forall|state: (Seq<AttributeView>, Option<u64>), a: AttributeView| #[trigger]
        variant_attr_step()(state, a) is Ok <==> (|x: AttributeView| variant_attr_ok(x))(a) by {
        if let AttributeView::Console(args) = a {
            lemma_fold_ok(args, state.1, console_step(), |x: ConsoleArg| console_arg_ok(x));
        }
    }
    assert forall|state: (Seq<AttributeView>, Option<u64>), a: AttributeView| #[trigger]
        field_attr_step()(state, a) is Ok <==> (|x: AttributeView| field_attr_ok(x))(a) by {
        if let AttributeView::Arg(args) = a {
            lemma_fold_ok(args, state.1, arg_step(), |x: FieldArg| field_arg_ok(x));
        }
    }
    assert forall|state: Seq<FieldView>, f: FieldView| #[trigger] field_step()(state, f) is Ok
        <==> (|x: FieldView| field_ok(x))(f) by {
        lemma_fold_ok(
            f.attrs,
            (Seq::empty(), None),
            field_attr_step(),
            |x: AttributeView| field_attr_ok(x),
        );
    }
    assert forall|state: Seq<VariantView>, v: VariantView| #[trigger] variant_step()(state, v) is Ok
        <==> (|x: VariantView| variant_ok(x))(v) by {
        lemma_fold_ok(
            v.attrs,
            (Seq::empty(), None),
            variant_attr_step(),
            |x: AttributeView| variant_attr_ok(x),
        );
        if let FieldsView::Named(fs) = v.fields {
            lemma_fold_ok(fs, Seq::empty(), field_step(), |x: FieldView| field_ok(x));
        }
    }
    lemma_fold_ok(e.variants, Seq::empty(), variant_step(), |x: VariantView| variant_ok(x));
}

} // verus!
