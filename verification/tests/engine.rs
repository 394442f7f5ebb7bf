use elysium::command_line::{command_line, map_arg, BASE_DIR, GAME, VULKAN};
use elysium::console::{has_subcommand, Impacts};
use elysium::modules::{candidate_paths, load_order, load_outcome, Attempt, LoadOutcome, SourceModule};
use elysium::pattern::{
    decrease_size, expected_character_in_octal, expected_character_in_wildcard, expected_space,
    increase_size, invalid_character, unexpected_character_in_octal,
    unexpected_character_in_wildcard, unexpected_space, unexpected_trailing_space, PatternError,
};
use elysium::sdl::gl_swap_window::{step, SwapStep};
use elysium::sdl::poll_event::{runs_schedule, EventClass};
use elysium::sdl::{
    poll_event, translate_event, CursorEvents, InputAction, InputEvents, SdlEvent, WindowEvents,
};
use elysium::tier0::{log_level, log_message, takes_argument, try_log_message, LogLevel, Severity};

#[test]
fn command_line_arguments() {
    assert_eq!(map_arg(b"+fps_max"), Some("400"));
    assert_eq!(map_arg(b"-game"), Some("csgo"));
    assert_eq!(map_arg(b"-language"), Some("english"));
    assert_eq!(map_arg(b"-defaultgamedir"), Some("hl2"));
    assert_eq!(map_arg(b"-basedir"), Some(""));
    assert_eq!(map_arg(b"-unknown"), None);
    assert_eq!(map_arg(b""), None);
}

#[test]
fn command_line_queries() {
    let cl = command_line();
    assert_eq!(cl.get_cmd_line(), "csgo_linux64");
    assert_eq!(cl.check_parm(b"-game"), Some("csgo"));
    assert!(cl.has_parm(b"-transmitevents"));
    assert!(!cl.has_parm(b"-vulkan"));
    assert_eq!(cl.parm_value(b"-language", "german"), "english");
    assert_eq!(cl.parm_value(b"-nosuch", "fallback"), "fallback");
    assert_eq!(cl.parm_value_int(b"+fps_max", 60), 60);
    assert_eq!(cl.parm_count(), 1);
    assert_eq!(cl.get_parms(), vec![Some("csgo_linux64"), None]);
}

#[test]
fn command_line_indices() {
    let cl = command_line();
    assert_eq!(BASE_DIR.to_le_bytes(), *b"BASE");
    assert_eq!(GAME.to_le_bytes(), *b"GAME");
    assert_eq!(VULKAN.to_le_bytes(), *b"VKVK");
    assert_eq!(cl.find_parm(b"-basedir"), BASE_DIR);
    assert_eq!(cl.find_parm(b"-game"), GAME);
    assert_eq!(cl.find_parm(b"-vulkan"), VULKAN);
    assert_eq!(cl.find_parm(b"-language"), 0);
    assert_eq!(cl.get_parm(0), Some("csgo_linux64"));
    assert_eq!(cl.get_parm(GAME), Some("csgo"));
    assert_eq!(cl.get_parm(BASE_DIR), Some(""));
    assert_eq!(cl.get_parm(VULKAN), Some(""));
    assert_eq!(cl.get_parm(1), None);
}

#[test]
fn found_parameters_resolve() {
    let cl = command_line();
    for arg in [&b"-basedir"[..], b"-game"] {
        let index = cl.find_parm(arg);
        assert_ne!(index, 0);
        assert_eq!(cl.get_parm(index), cl.check_parm(arg));
    }
    assert!(cl.get_parm(cl.find_parm(b"-vulkan")).is_some());
}

#[test]
fn impacts_choices() {
    assert_eq!(
        Impacts::value_variants(),
        vec![Impacts::Hidden, Impacts::Both, Impacts::Client, Impacts::Server]
    );
    assert_eq!(Impacts::default(), Impacts::Hidden);
    assert_eq!(Impacts::Both.name(), "both");
    assert_eq!(Impacts::Client.help(), "Show client (red)");
    assert_eq!(Impacts::Hidden.help(), "Don't show any");
    assert_eq!(Impacts::from_name(b"nope"), None);
}

#[test]
fn impacts_name_round_trip() {
    for i in Impacts::value_variants() {
        assert_eq!(Impacts::from_name(i.name().as_bytes()), Some(i));
    }
}

#[test]
fn console_commands() {
    assert!(has_subcommand(b"noclip"));
    assert!(has_subcommand(b"sv_showimpacts"));
    assert!(has_subcommand(b"buddah"));
    assert!(!has_subcommand(b"quit"));
    assert!(!has_subcommand(b""));
}

#[test]
fn pattern_errors() {
    let all = [
        (invalid_character(), PatternError::InvalidCharacter, "invalid character encountered in pattern"),
        (expected_character_in_octal(), PatternError::ExpectedCharacterInOctal, "expected character in octal"),
        (unexpected_character_in_octal(), PatternError::UnexpectedCharacterInOctal, "unexpected character in octal"),
        (expected_character_in_wildcard(), PatternError::ExpectedCharacterInWildcard, "expected character in wildcard"),
        (unexpected_character_in_wildcard(), PatternError::UnexpectedCharacterInWildcard, "unexpected character in wildcard"),
        (expected_space(), PatternError::ExpectedSpace, "expected space"),
        (unexpected_space(), PatternError::UnexpectedSpace, "expected a pattern not spaces"),
        (unexpected_trailing_space(), PatternError::UnexpectedTrailingSpace, "unexpected trailing spaces"),
        (decrease_size(), PatternError::DecreaseSize, "decrease the pattern size"),
        (increase_size(), PatternError::IncreaseSize, "increase the pattern size"),
    ];
    for (got, want, message) in all {
        assert_eq!(got, want);
        assert_eq!(got.message(), message);
    }
}

#[test]
fn module_load_order() {
    let order = load_order();
    assert_eq!(order.len(), 8);
    assert_eq!(order[0], SourceModule::Launcher);
    assert_eq!(order[1], SourceModule::Tier0);
    for i in 0..order.len() {
        for j in i + 1..order.len() {
            assert_ne!(order[i], order[j]);
        }
    }
}

#[test]
fn module_idents() {
    assert_eq!(SourceModule::Tier0.ident(), "libtier0");
    assert_eq!(SourceModule::Input.ident(), "inputsystem");
    assert_eq!(SourceModule::VGui.ident(), "vgui2");
}

#[test]
fn module_candidate_paths() {
    assert_eq!(
        candidate_paths(SourceModule::Engine.ident()),
        vec![
            "./bin/linux64/engine_client.so".to_string(),
            "./csgo/bin/linux64/engine_client.so".to_string(),
        ]
    );
    assert_eq!(
        candidate_paths("/abs/x"),
        vec!["/abs/x_client.so".to_string(), "/abs/x_client.so".to_string()]
    );
}

#[test]
fn log_levels() {
    assert_eq!(log_level(Severity::Error), LogLevel::Error);
    assert_eq!(log_level(Severity::Warning), LogLevel::Warn);
    assert_eq!(log_level(Severity::Message), LogLevel::Info);
    assert_eq!(log_level(Severity::Other), LogLevel::Trace);
}

#[test]
fn log_format_argument() {
    assert!(takes_argument(b"%s"));
    assert!(takes_argument(b"  %s\n"));
    assert!(!takes_argument(b"%d"));
    assert!(!takes_argument(b"%s%s"));
    assert!(!takes_argument(b""));
}

#[test]
fn log_messages() {
    assert_eq!(log_message(b" %s ", Some(b"  hello world\n")), "hello world");
    assert_eq!(log_message(b"  plain message \t", None), "plain message");
    assert_eq!(log_message(b"unused %d", Some(b"arg")), "unused %d");
    assert_eq!(log_message(b"\xff ok", None), "\u{fffd} ok");
    assert_eq!(log_message(b"\xe2\x80\x83text\xe3\x80\x80", None), "text");
}

#[test]
fn sdl_translation() {
    assert_eq!(
        translate_event(&SdlEvent::MouseButtonDown { button: 1 }),
        Some(InputAction::MouseButton { button: 1, pressed: true })
    );
    assert_eq!(
        translate_event(&SdlEvent::KeyUp { keycode: Some(97), scancode: Some(4), repeat: false }),
        Some(InputAction::Keyboard { scan_code: 4, key_code: Some(97), pressed: false })
    );
    assert_eq!(
        translate_event(&SdlEvent::KeyDown { keycode: Some(97), scancode: Some(-1), repeat: false }),
        Some(InputAction::Keyboard { scan_code: u32::MAX, key_code: Some(97), pressed: true })
    );
    assert_eq!(
        translate_event(&SdlEvent::KeyDown { keycode: Some(97), scancode: Some(4), repeat: true }),
        None
    );
    assert_eq!(
        translate_event(&SdlEvent::KeyDown { keycode: None, scancode: None, repeat: false }),
        None
    );
    assert_eq!(translate_event(&SdlEvent::Other), None);
}

#[test]
fn sdl_poll_event_routes() {
    let mut window = WindowEvents;
    let mut input = InputEvents {
        keyboard_input: Vec::new(),
        mouse_button_input: Vec::new(),
        mouse_wheel_input: Vec::new(),
    };
    let mut cursor = CursorEvents { cursor_moved: Vec::new() };
    poll_event(SdlEvent::MouseMotion { x: 3, y: 4 }, None, &mut window, &mut input, &mut cursor);
    assert!(cursor.cursor_moved.is_empty());
    poll_event(SdlEvent::MouseMotion { x: 3, y: 4 }, Some(9), &mut window, &mut input, &mut cursor);
    poll_event(SdlEvent::MouseWheel { x: 0, y: -1 }, Some(9), &mut window, &mut input, &mut cursor);
    poll_event(
        SdlEvent::KeyDown { keycode: Some(13), scancode: Some(40), repeat: false },
        Some(9),
        &mut window,
        &mut input,
        &mut cursor,
    );
    poll_event(SdlEvent::Other, Some(9), &mut window, &mut input, &mut cursor);
    assert_eq!(cursor.cursor_moved, vec![(9, InputAction::CursorMoved { x: 3, y: 4 })]);
    assert_eq!(input.mouse_wheel_input, vec![InputAction::MouseWheel { x: 0, y: -1 }]);
    assert_eq!(
        input.keyboard_input,
        vec![InputAction::Keyboard { scan_code: 40, key_code: Some(13), pressed: true }]
    );
    assert!(input.mouse_button_input.is_empty());
}

#[test]
fn swap_window_initializes_on_titled_window() {
    assert_eq!(step(false, b""), SwapStep { is_initialized: false, run_schedule: false });
    assert_eq!(step(false, b"Counter-Strike"), SwapStep { is_initialized: true, run_schedule: true });
    assert_eq!(step(true, b""), SwapStep { is_initialized: true, run_schedule: true });
}

#[test]
fn poll_event_schedule() {
    assert!(runs_schedule(EventClass::Input));
    assert!(!runs_schedule(EventClass::Drop));
    assert!(!runs_schedule(EventClass::Render));
    assert!(!runs_schedule(EventClass::Unknown));
    assert!(!runs_schedule(EventClass::User));
}

#[test]
fn log_message_needs_its_argument() {
    assert_eq!(try_log_message(b"%s", None), None);
    assert_eq!(try_log_message(b"%s", Some(b" x ")), Some("x".to_string()));
    assert_eq!(try_log_message(b" plain ", None), Some("plain".to_string()));
}

#[test]
fn module_load_attempts() {
    assert_eq!(load_outcome(&[], 2), LoadOutcome::TryNext);
    assert_eq!(load_outcome(&[Attempt::Failed], 2), LoadOutcome::TryNext);
    assert_eq!(load_outcome(&[Attempt::Failed, Attempt::Opened], 2), LoadOutcome::Loaded(1));
    assert_eq!(load_outcome(&[Attempt::Opened], 2), LoadOutcome::Loaded(0));
    assert_eq!(load_outcome(&[Attempt::Failed, Attempt::Failed], 2), LoadOutcome::Failed);
    assert_eq!(load_outcome(&[], 0), LoadOutcome::Failed);
}
