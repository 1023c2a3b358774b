use neko::compositer::{Compositer, CompositerError};
use neko::event::{Event, KeyDown};
use neko::library::{Callback, Callbacks, Library};
use neko::persona::Sheet;

fn handle(path: &str, priority: i64, callbacks: Callbacks, token: u64) -> Library {
    Library::new(path.to_string(), priority, callbacks, token)
}

#[test]
fn test_unmount_twice() {
    let mut c = Compositer::new();
    c.mount(handle("lib/arukana@libnya.so", 0, Callbacks::none(), 1));
    assert!(c.unmount("arukana@libnya").is_ok());
    assert_eq!(
        c.unmount("arukana@libnya").err(),
        Some(CompositerError::UnmountPosition)
    );
    // a name that never was mounted fails the same way, twice
    assert_eq!(
        c.unmount("arukana@other").err(),
        Some(CompositerError::UnmountPosition)
    );
    assert_eq!(
        c.unmount("arukana@other").err(),
        Some(CompositerError::UnmountPosition)
    );
}

#[test]
fn test_mount_twice_keeps_one_handle() {
    let mut c = Compositer::new();
    c.mount(handle("lib/arukana@low.so", -3, Callbacks::none(), 1));
    c.mount(handle("lib/arukana@high.so", 7, Callbacks::none(), 2));
    c.mount(handle("lib/arukana@libnya.so", 5, Callbacks::none(), 3));
    c.mount(handle("lib/arukana@libnya.so", 2, Callbacks::none(), 4));

    let stems: Vec<String> = c
        .list
        .iter()
        .map(|l| neko::identifier::file_stem(l.as_path_buf().as_str()))
        .collect();
    assert_eq!(
        stems.iter().filter(|s| s.as_str() == "arukana@libnya").count(),
        1
    );
    let the_one = c
        .list
        .iter()
        .find(|l| neko::identifier::file_stem(l.as_path_buf().as_str()) == "arukana@libnya")
        .unwrap();
    assert_eq!(the_one.get_priority(), 2);
    // sorted ascending by priority
    let prios: Vec<i64> = c.list.iter().map(|l| l.get_priority()).collect();
    assert_eq!(prios, vec![-3, 2, 7]);
}

#[test]
fn test_dispatch_precedence() {
    let all = Callbacks {
        install: true,
        uninstall: true,
        start: true,
        end: true,
        idle: true,
        process: true,
        command: true,
        key_unicode_down: true,
        key_string_down: true,
        key_repeat_down: true,
        key_interval_down: true,
        mouse_down: true,
        mouse_up: true,
        input: true,
        output: true,
        signal: true,
        resized: true,
    };
    let l = handle("lib/a@b.so", 0, all, 1);

    let mut e = Event::idle();
    assert_eq!(l.call(&e), Some(Callback::Idle));

    e.task = Some((b"sh".to_vec(), 42));
    assert_eq!(l.call(&e), Some(Callback::Process));
    e.output = Some(b"out".to_vec());
    assert_eq!(l.call(&e), Some(Callback::Output));
    e.input = Some(b"in".to_vec());
    assert_eq!(l.call(&e), Some(Callback::Input));
    e.mouse = Some((0, false, 3, 4));
    assert_eq!(l.call(&e), Some(Callback::MouseUp));
    e.mouse = Some((0, true, 3, 4));
    assert_eq!(l.call(&e), Some(Callback::MouseDown));
    e.keyinterval = Some(9);
    assert_eq!(l.call(&e), Some(Callback::KeyIntervalDown));
    e.keyrepeat = Some(9);
    assert_eq!(l.call(&e), Some(Callback::KeyRepeatDown));
    e.keydown = Some(KeyDown::Str(b"yo".to_vec()));
    assert_eq!(l.call(&e), Some(Callback::KeyStringDown));
    e.keydown = Some(KeyDown::Char(97));
    assert_eq!(l.call(&e), Some(Callback::KeyUnicodeDown));
    e.signal = Some(2);
    assert_eq!(l.call(&e), Some(Callback::Signal));

    // an unresolved symbol means no call at all
    let bare = handle("lib/a@b.so", 0, Callbacks::none(), 1);
    assert_eq!(bare.call(&e), None);
}

#[test]
fn test_call_at_most_one_per_handle() {
    let mut idle_only = Callbacks::none();
    idle_only.idle = true;
    let mut c = Compositer::new();
    c.mount(handle("lib/a@one.so", 1, idle_only, 1));
    c.mount(handle("lib/a@two.so", 2, Callbacks::none(), 2));
    c.mount(handle("lib/a@three.so", 3, idle_only, 3));

    let plan = c.call(&Event::idle());
    assert_eq!(plan.len(), 2);
    assert_eq!(plan[0].handle, 1);
    assert_eq!(plan[0].callback, Callback::Idle);
    assert_eq!(plan[1].handle, 3);
    assert_eq!(plan[1].callback, Callback::Idle);
    assert!(plan[0].slot < plan[1].slot);
}

#[test]
fn test_idle_unmount_flag_prunes_handle() {
    let mut idle_only = Callbacks::none();
    idle_only.idle = true;
    let mut c = Compositer::new();
    c.mount(handle("lib/arukana@stays.so", 0, Callbacks::none(), 1));
    c.mount(handle("lib/arukana@leaves.so", 1, idle_only, 2));

    let plan = c.call(&Event::idle());
    assert_eq!(plan.len(), 1);
    // the host runs the step; the plugin sets the shared unmount flag
    c.state.set_unmount_flag(1);
    assert!(c.get_state().is_unmounted());
    let slot = plan[0].slot;
    c.mark_unmounted(slot);
    c.state.set_unmount_flag(0);

    let ended = c.prune();
    assert_eq!(ended.len(), 1);
    assert_eq!(
        neko::identifier::file_stem(ended[0].as_path_buf().as_str()),
        "arukana@leaves"
    );
    assert_eq!(c.list.len(), 1);
    assert_eq!(
        neko::identifier::file_stem(c.list[0].as_path_buf().as_str()),
        "arukana@stays"
    );
    assert_eq!(
        c.unmount("arukana@leaves").err(),
        Some(CompositerError::UnmountPosition)
    );
}

#[test]
fn test_install_mounts_one_handle_and_start_shows() {
    // the decisions of a whole install, with the host steps simulated
    let url = "https://github.com/Arukana/libnya.git";
    let id = neko::installer::install_plan(url, false).unwrap();
    assert_eq!(id, "arukana@libnya");
    let artifact = neko::identifier::join_path("lib", neko::identifier::artifact_name(&id).as_str());
    assert_eq!(artifact, "lib/arukana@libnya.so");

    let mut c = Compositer::new();
    assert_eq!(c.get_state().get_sheet(), &Sheet::Empty);
    let mut start_only = Callbacks::none();
    start_only.start = true;
    c.mount(handle(&artifact, 0, start_only, 7));
    // the start hook runs and writes the sheet through the shared blob
    c.state.set_persona_sheet(Sheet::Bust);

    let stems: Vec<String> = c
        .list
        .iter()
        .map(|l| neko::identifier::file_stem(l.as_path_buf().as_str()))
        .collect();
    assert_eq!(stems, vec!["arukana@libnya".to_string()]);
    assert_eq!(c.get_state().get_sheet(), &Sheet::Bust);
}
