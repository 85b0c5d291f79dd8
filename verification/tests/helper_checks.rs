//! Directories, file visibility, the line editor, the span search and the
//! build-time glue generator.

use bp3d_os::dirs::{App, AppPath, SystemDirs};
use bp3d_os::editor::{EditorEffect, Event, InputDecision, InputEvent, LineEditor, Window};
use bp3d_os::fs::PathUpdate;
use bp3d_os::time::{binary_search, Instant, Span};
use std::cmp::Ordering;

fn assert_sync_send<T: Sync + Send>(x: T) -> T {
    x
}

#[test]
fn test_sync_send() {
    let obj = App::new("test");
    let _ = assert_sync_send(obj);
}

#[test]
fn test_binary_search() {
    assert_eq!(binary_search(0, 8, |x| x.cmp(&6)), Some(6));
    assert_eq!(binary_search(0, 5000, |x| x.cmp(&1337)), Some(1337));
    assert_eq!(binary_search(0, 5000, |x| x.cmp(&9000)), None);
    assert_eq!(binary_search(30, 50, |x| x.cmp(&42)), Some(42));
    assert_eq!(binary_search(300, 500, |x| x.cmp(&42)), None);
    assert_eq!(
        binary_search(0, 500, |x| if x < 42 {
            Ordering::Less
        } else {
            Ordering::Greater
        }),
        None
    );
}

#[test]
fn span_comparison() {
    let span = Span::new(Some(10), Some(20));
    assert_eq!(span.cmp(15), Ordering::Equal);
    assert_eq!(span.cmp(25), Ordering::Less);
    assert_eq!(span.cmp(5), Ordering::Greater);
    assert_eq!(Span::new(Some(10), None).cmp(10), Ordering::Equal);
    assert_eq!(Span::new(Some(10), None).cmp(9), Ordering::Greater);
    assert_eq!(Span::new(None, Some(10)).cmp(10), Ordering::Less);
    assert_eq!(Span::new(None, Some(10)).cmp(9), Ordering::Equal);
    assert_eq!(Span::new(None, None).cmp(0), Ordering::Equal);
}

#[test]
fn instant_elapsed() {
    let t = Instant::now();
    let target = std::time::Duration::from_millis(8);
    while t.elapsed() < target {}
    assert!(t.elapsed() >= target);
}

#[test]
fn app_directory_fallbacks() {
    let app = App::with_dirs(
        "demo",
        SystemDirs {
            cache: None,
            config: None,
            data: Some("/home/u/.local/share".into()),
            logs: None,
            documents: None,
        },
    );
    assert_eq!(app.get_data().as_deref(), Some("/home/u/.local/share/demo"));
    assert_eq!(
        app.get_cache().as_deref(),
        Some("/home/u/.local/share/demo/Cache")
    );
    assert_eq!(
        app.get_documents().as_deref(),
        Some("/home/u/.local/share/demo/Documents")
    );
    assert_eq!(
        app.get_logs().as_deref(),
        Some("/home/u/.local/share/demo/Documents/Logs")
    );
    assert_eq!(
        app.get_config().as_deref(),
        Some("/home/u/.local/share/demo/Config")
    );
    let bare = App::new("demo");
    assert!(bare.get_data().is_none());
    assert!(bare.get_logs().is_none());
}

#[test]
fn system_directory_overrides() {
    assert_eq!(
        bp3d_os::dirs::get_app_cache(Some("/xdg/cache".into()), Some("/home/u")).as_deref(),
        Some("/xdg/cache")
    );
    assert_eq!(
        bp3d_os::dirs::get_app_cache(None, Some("/home/u")).as_deref(),
        Some("/home/u/.cache")
    );
    assert!(bp3d_os::dirs::get_app_cache(None, None).is_none());
    assert_eq!(
        bp3d_os::dirs::get_app_config(None, Some("/home/u")).as_deref(),
        Some("/home/u/.config")
    );
    assert_eq!(
        bp3d_os::dirs::get_app_data(None, Some("/home/u")).as_deref(),
        Some("/home/u/.local/share")
    );
    assert!(bp3d_os::dirs::get_app_logs().is_none());
    assert!(bp3d_os::dirs::get_app_documents().is_none());
    assert_eq!(
        bp3d_os::dirs::get_user_home(Some("/home/u".into())).as_deref(),
        Some("/home/u")
    );
    assert_eq!(
        bp3d_os::dirs::get_user_documents(None, Some("/home/u")).as_deref(),
        Some("/home/u/Documents")
    );
    assert_eq!(
        bp3d_os::dirs::get_user_downloads(None, Some("/home/u")).as_deref(),
        Some("/home/u/Downloads")
    );
    let p = AppPath::new("/data/app".into());
    assert_eq!(p.join("file.txt"), "/data/app/file.txt");
}

#[test]
fn asset_candidates() {
    assert!(bp3d_os::assets::get_resources_dir().is_none());
    assert_eq!(
        bp3d_os::assets::get_app_bundled_asset(Some("/res"), Some("/bin"), "a.png").as_deref(),
        Some("/res/a.png")
    );
    assert_eq!(
        bp3d_os::assets::get_app_bundled_asset(None, Some("/bin"), "a.png").as_deref(),
        Some("/bin/Assets/a.png")
    );
    assert!(bp3d_os::assets::get_app_bundled_asset(None, None, "a.png").is_none());
}

#[test]
fn hidden_files() {
    assert!(bp3d_os::fs::is_hidden("/tmp/.secret"));
    assert!(!bp3d_os::fs::is_hidden("/tmp/plain"));
    assert!(bp3d_os::fs::is_hidden(".bare"));
    match bp3d_os::fs::hide_path("/tmp/plain") {
        Some(PathUpdate::Changed(p)) => assert_eq!(p, "/tmp/.plain"),
        other => panic!("expected a changed path, got {:?}", other.is_some()),
    }
    match bp3d_os::fs::hide_path("/tmp/.secret") {
        Some(PathUpdate::Unchanged(p)) => assert_eq!(p, "/tmp/.secret"),
        _ => panic!("an already hidden path stays"),
    }
    match bp3d_os::fs::show("/tmp/.secret") {
        Some(PathUpdate::Changed(p)) => assert_eq!(p, "/tmp/secret"),
        _ => panic!("expected a changed path"),
    }
    match bp3d_os::fs::show("/tmp/plain") {
        Some(PathUpdate::Unchanged(p)) => assert_eq!(p, "/tmp/plain"),
        _ => panic!("a visible path stays"),
    }
}

#[test]
fn file_names_follow_the_platform() {
    // A path ending in `..` has no file name; trailing separators and `.`
    // components are ignored.
    assert!(!bp3d_os::fs::is_hidden("a/.."));
    assert!(bp3d_os::fs::is_hidden("a/.foo/"));
    assert_eq!(bp3d_os::fs::file_name("tmp/foo.txt").as_deref(), Some("foo.txt"));
    assert_eq!(bp3d_os::fs::file_name("foo.txt/.").as_deref(), Some("foo.txt"));
    assert_eq!(bp3d_os::fs::file_name("foo.txt/.//").as_deref(), Some("foo.txt"));
    assert!(bp3d_os::fs::file_name("foo.txt/..").is_none());
    assert!(bp3d_os::fs::file_name("/").is_none());
    assert!(bp3d_os::fs::file_name(".").is_none());
    assert!(bp3d_os::fs::file_name("..").is_none());
    assert!(bp3d_os::fs::file_name("").is_none());
    // Renaming drops what followed the name and acts on the name itself.
    match bp3d_os::fs::hide_path("/tmp/dir/") {
        Some(PathUpdate::Changed(p)) => assert_eq!(p, "/tmp/.dir"),
        _ => panic!("a trailing separator does not stop the rename"),
    }
    match bp3d_os::fs::show("a/.foo/") {
        Some(PathUpdate::Changed(p)) => assert_eq!(p, "a/foo"),
        _ => panic!("a trailing separator does not stop the rename"),
    }
    match bp3d_os::fs::hide_path("a/b/.") {
        Some(PathUpdate::Changed(p)) => assert_eq!(p, "a/.b"),
        _ => panic!("a `.` component does not stop the rename"),
    }
    assert!(bp3d_os::fs::hide_path("a/..").is_none());
    assert!(bp3d_os::fs::show("a/..").is_none());
}

#[test]
fn editor_editing() {
    let mut ed = LineEditor::new();
    assert!(matches!(
        ed.handle(InputEvent::Input("helo".into())),
        EditorEffect::Redraw
    ));
    assert_eq!(ed.line(), "helo");
    assert_eq!(ed.pos(), 4);
    // Step left twice, insert the missing letter.
    ed.handle(InputEvent::Left);
    ed.handle(InputEvent::Left);
    ed.handle(InputEvent::Input("l".into()));
    assert_eq!(ed.line(), "hello");
    assert_eq!(ed.pos(), 3);
    // Delete removes left of the cursor.
    ed.handle(InputEvent::Delete);
    assert_eq!(ed.line(), "helo");
    assert_eq!(ed.pos(), 2);
    ed.handle(InputEvent::LineEnd);
    assert_eq!(ed.pos(), 4);
    ed.handle(InputEvent::LineStart);
    assert_eq!(ed.pos(), 0);
    // At the borders, left and right do nothing.
    assert!(matches!(ed.handle(InputEvent::Left), EditorEffect::Quiet));
    ed.handle(InputEvent::LineEnd);
    assert!(matches!(ed.handle(InputEvent::Right), EditorEffect::Quiet));
}

#[test]
fn editor_history() {
    let mut ed = LineEditor::new();
    ed.handle(InputEvent::Input("first".into()));
    match ed.handle(InputEvent::NewLine) {
        EditorEffect::Submitted(Event::CommandReceived(line)) => assert_eq!(line, "first"),
        _ => panic!("a newline submits the line"),
    }
    assert_eq!(ed.line(), "");
    ed.handle(InputEvent::Input("second".into()));
    ed.handle(InputEvent::NewLine);
    // Walk back through the history.
    ed.handle(InputEvent::HistoryPrev);
    assert_eq!(ed.line(), "second");
    ed.handle(InputEvent::HistoryPrev);
    assert_eq!(ed.line(), "first");
    // And forward again to the fresh line.
    ed.handle(InputEvent::HistoryNext);
    assert_eq!(ed.line(), "second");
    ed.handle(InputEvent::HistoryNext);
    assert_eq!(ed.line(), "");
    // Exit request passes through unchanged.
    assert!(matches!(
        ed.handle(InputEvent::End),
        EditorEffect::Stop(Event::ExitRequested)
    ));
}

#[test]
fn input_decoding() {
    assert!(matches!(
        bp3d_os::editor::decode_input(&[27, 91, 68]),
        InputDecision::Emit(InputEvent::Left)
    ));
    assert!(matches!(
        bp3d_os::editor::decode_input(&[27, 91, 65]),
        InputDecision::Emit(InputEvent::HistoryPrev)
    ));
    assert!(matches!(
        bp3d_os::editor::decode_input(&[10]),
        InputDecision::Emit(InputEvent::NewLine)
    ));
    assert!(matches!(
        bp3d_os::editor::decode_input(&[127]),
        InputDecision::Emit(InputEvent::Delete)
    ));
    assert!(matches!(
        bp3d_os::editor::decode_input(&[4]),
        InputDecision::CloseRequested
    ));
    assert!(matches!(
        bp3d_os::editor::decode_input(&[27]),
        InputDecision::Pending
    ));
    match bp3d_os::editor::decode_input(b"hi") {
        InputDecision::Emit(InputEvent::Input(s)) => assert_eq!(s, "hi"),
        _ => panic!("plain bytes are text"),
    }
}

#[test]
fn window_selection() {
    // The whole line fits.
    assert!(matches!(
        bp3d_os::editor::string_window(0, 80, "> ", "short"),
        Window::Full
    ));
    // Cursor at the very end of a long line: show its tail.
    match bp3d_os::editor::string_window(30, 13, "> ", "abcdefghijklmnopqrstuvwxyz1230") {
        Window::Start(s) => assert_eq!(s, 20),
        _ => panic!("expected the tail window"),
    }
    // Cursor inside a long line: a slice around it, shrunk to the end.
    match bp3d_os::editor::string_window(2, 13, "> ", "abcdefghijklmnopqrstuvwxyz") {
        Window::StartEnd(s, e) => {
            assert_eq!((s, e), (2, 12));
        }
        _ => panic!("expected a slice window"),
    }
    assert_eq!(bp3d_os::editor::clear_remaining(), "\u{1b}[K");
}

#[test]
fn cpu_info_record() {
    let info = bp3d_os::cpu::CpuInfo::new("TestBrand".into(), 8);
    assert_eq!(info.name, "TestBrand");
    assert_eq!(info.core_count, 8);
    assert_eq!(info.clone(), info);
}

#[test]
fn module_main_glue() {
    let main = bp3d_os::buildtool::ModuleMain::new(
        "my-mod",
        "0.3.0",
        "rustc-1.85.0",
        "a=1.0.0",
        "a/abc",
        "/tmp/out.rs",
    );
    let main = main.add_open().add_close();
    let main = main.add_export("extra_symbol");
    let (path, text) = main.build();
    assert_eq!(path, "/tmp/out.rs");
    assert!(text.contains(
        "\"\u{0}BP3D_OS_MODULE|TYPE=RUST|NAME=my_mod|VERSION=0.3.0|RUSTC=rustc-1.85.0|DEPS=a=1.0.0|FEATURES=a/abc\u{0}\""
    ));
    assert!(text.contains("static mut BP3D_OS_MODULE_MY_MOD"));
    assert!(text.contains("fn bp3d_os_module_my_mod_init("));
    assert!(text.contains("fn bp3d_os_module_my_mod_uninit("));
    assert!(text.contains("fn bp3d_os_module_my_mod_open("));
    assert!(text.contains("fn bp3d_os_module_my_mod_close("));
    assert!(text.contains("(\"extra_symbol\", extra_symbol as _)"));
    assert!(text.ends_with("\n    ]);"));
}

#[test]
fn module_ext_name() {
    assert_eq!(bp3d_os::module_ext(), "so");
}

#[test]
fn cursor_escapes() {
    assert_eq!(bp3d_os::editor::move_cursor(0, 24), "\u{1b}[24;1H");
    assert_eq!(bp3d_os::editor::move_cursor(79, 3), "\u{1b}[3;80H");
    assert_eq!(bp3d_os::editor::dec_string(0), "0");
    assert_eq!(bp3d_os::editor::dec_string(10), "10");
    assert_eq!(bp3d_os::editor::dec_string(90417), "90417");
}

#[test]
fn url_parsing() {
    let url = bp3d_os::url::Url::parse("https://rust-lang.org").unwrap();
    assert_eq!(url.scheme(), "https");
    assert_eq!(url.path(), "rust-lang.org");
    assert!(!url.is_path());
    assert_eq!(url.to_text(), "https://rust-lang.org");
    let file = bp3d_os::url::Url::parse("file:///tmp/x").unwrap();
    assert!(file.is_path());
    assert_eq!(file.path(), "/tmp/x");
    let bad = bp3d_os::url::Url::parse("no-separator").unwrap_err();
    assert_eq!(bad.0, "no-separator");
}
