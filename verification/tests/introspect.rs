use niri::introspect::windows_signature;

const A: (u64, &str, &str) = (1, "Terminal — ~", "kitty");
const B: (u64, &str, &str) = (2, "Meeting", "Zoom");
const C: (u64, &str, &str) = (3, "inbox", "thunderbird");

#[test]
fn order_independent() {
    let fwd = windows_signature(&[A, B, C]);
    let rev = windows_signature(&[C, B, A]);
    assert_eq!(fwd, rev);
}

#[test]
fn add_remove_retitle_change_signature() {
    let base = windows_signature(&[A, B]);

    let added = windows_signature(&[A, B, C]);
    assert_ne!(base, added);

    let removed = windows_signature(&[A]);
    assert_ne!(base, removed);

    let retitled = windows_signature(&[A, (2, "Meeting — sharing", "Zoom")]);
    assert_ne!(base, retitled);

    let new_app_id = windows_signature(&[A, (2, "Meeting", "zoom")]);
    assert_ne!(base, new_app_id);
}

#[test]
fn empty_is_stable() {
    let a = windows_signature(&[]);
    let b = windows_signature(&[]);
    assert_eq!(a, b);
    assert_eq!(a, 0);
}

#[test]
fn signature_is_xor_of_single_windows() {
    let a = windows_signature(&[A]);
    let b = windows_signature(&[B]);
    assert_eq!(windows_signature(&[A, B]), a ^ b);
    // A window listed twice cancels out.
    assert_eq!(windows_signature(&[A, B, A]), b);
}
