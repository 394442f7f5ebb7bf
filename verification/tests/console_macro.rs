use elysium::console_macro::{
    console_attributes, Attribute, ConsoleArg, ConsoleError, EnumDecl, Field, FieldArg, Fields,
    Generated, Variant,
};

fn generated(g: Generated) -> Attribute {
    Attribute::Generated(g)
}

fn enum_tail() -> Vec<Attribute> {
    vec![
        generated(Generated::DeriveParser),
        generated(Generated::ArgRequiredElseHelp),
        generated(Generated::BinName),
        generated(Generated::DisableHelpSubcommand),
        generated(Generated::Multicall),
        generated(Generated::ConsoleName),
        generated(Generated::RenameAll),
        generated(Generated::VerbatimDocComment),
    ]
}

#[test]
fn console_rewrites_attributes() {
    let input = EnumDecl {
        attrs: vec![Attribute::Other(1)],
        variants: vec![
            Variant {
                attrs: vec![Attribute::Other(2), Attribute::Console(vec![ConsoleArg::Name(10)])],
                fields: Fields::Named(vec![Field {
                    attrs: vec![Attribute::Arg(vec![FieldArg::Default(20)]), Attribute::Other(3)],
                }]),
            },
            Variant { attrs: vec![], fields: Fields::Unit },
        ],
    };
    let mut attrs = vec![Attribute::Other(1)];
    attrs.extend(enum_tail());
    let expected = EnumDecl {
        attrs,
        variants: vec![
            Variant {
                attrs: vec![
                    Attribute::Other(2),
                    generated(Generated::ArgRequiredElseHelp),
                    generated(Generated::CommandName(10)),
                    generated(Generated::VerbatimDocComment),
                ],
                fields: Fields::Named(vec![Field {
                    attrs: vec![
                        Attribute::Other(3),
                        generated(Generated::DefaultValue(20)),
                        generated(Generated::ActionSet),
                        generated(Generated::Required),
                    ],
                }]),
            },
            Variant { attrs: vec![generated(Generated::VerbatimDocComment)], fields: Fields::Unit },
        ],
    };
    assert_eq!(console_attributes(input), Ok(expected));
}

#[test]
fn console_last_name_wins() {
    let input = EnumDecl {
        attrs: vec![],
        variants: vec![Variant {
            attrs: vec![
                Attribute::Console(vec![ConsoleArg::Name(1), ConsoleArg::Name(2)]),
                Attribute::Console(vec![]),
            ],
            fields: Fields::Named(vec![]),
        }],
    };
    let out = console_attributes(input).unwrap();
    assert_eq!(
        out.variants[0].attrs,
        vec![generated(Generated::CommandName(2)), generated(Generated::VerbatimDocComment)]
    );
}

#[test]
fn console_refusals() {
    let refuse = |input: EnumDecl| console_attributes(input).unwrap_err();
    assert_eq!(
        refuse(EnumDecl { attrs: vec![Attribute::Command], variants: vec![] }),
        ConsoleError::CommandUsed
    );
    assert_eq!(
        refuse(EnumDecl {
            attrs: vec![],
            variants: vec![Variant { attrs: vec![Attribute::Command], fields: Fields::Unit }],
        }),
        ConsoleError::CommandUsed
    );
    assert_eq!(
        refuse(EnumDecl {
            attrs: vec![],
            variants: vec![
                Variant { attrs: vec![], fields: Fields::Unnamed(2) },
                Variant {
                    attrs: vec![Attribute::Console(vec![ConsoleArg::Unsupported])],
                    fields: Fields::Unit,
                },
            ],
        }),
        ConsoleError::TupleVariant
    );
    assert_eq!(
        refuse(EnumDecl {
            attrs: vec![],
            variants: vec![Variant {
                attrs: vec![Attribute::Console(vec![ConsoleArg::Name(1), ConsoleArg::Unsupported])],
                fields: Fields::Unit,
            }],
        }),
        ConsoleError::UnsupportedConsoleArgument
    );
    assert_eq!(
        refuse(EnumDecl {
            attrs: vec![],
            variants: vec![Variant {
                attrs: vec![],
                fields: Fields::Named(vec![Field {
                    attrs: vec![Attribute::Arg(vec![FieldArg::Unsupported])],
                }]),
            }],
        }),
        ConsoleError::UnsupportedArgArgument
    );
}

#[test]
fn console_keeps_command_on_fields() {
    let input = EnumDecl {
        attrs: vec![],
        variants: vec![Variant {
            attrs: vec![],
            fields: Fields::Named(vec![Field { attrs: vec![Attribute::Command] }]),
        }],
    };
    let out = console_attributes(input).unwrap();
    assert_eq!(
        out.variants[0].fields,
        Fields::Named(vec![Field {
            attrs: vec![
                Attribute::Command,
                generated(Generated::ActionSet),
                generated(Generated::Required),
            ],
        }])
    );
}
