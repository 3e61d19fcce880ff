use winit_platform::web::{
    CanvasElement, CustomCursorError, MonitorPermissionError, Orientation, OrientationData,
    OrientationLock, OrientationLockError, PollStrategy, WaitUntilStrategy, WindowAttributesWeb,
};

#[test]
fn default_attributes() {
    let a = WindowAttributesWeb::default();
    assert!(a.canvas().is_none());
    assert!(a.prevent_default());
    assert!(a.focusable());
    assert!(!a.append());
}

#[test]
fn builders_set_one_field_each() {
    let a = WindowAttributesWeb::default()
        .with_prevent_default(false)
        .with_focusable(false)
        .with_append(true)
        .with_canvas(Some(CanvasElement::from_handle(7)), true);
    assert!(!a.prevent_default());
    assert!(!a.focusable());
    assert!(a.append());
    let shared = a.canvas().unwrap();
    assert_eq!(shared.element().handle(), 7);

    let b = a.clone().with_canvas(None, true);
    assert!(b.canvas().is_none());
    assert!(!b.prevent_default());
    assert!(!b.focusable());
    assert!(b.append());

    let c = b.clone().with_focusable(true);
    assert!(c.focusable());
    assert!(c.append());
    assert!(!c.prevent_default());
}

#[test]
fn each_shared_canvas_is_new() {
    let element = CanvasElement::from_handle(3);
    let a = WindowAttributesWeb::default();
    let x = a.clone().with_canvas(Some(element), true);
    let y = a.clone().with_canvas(Some(element), true);
    assert!(x != y);
    assert!(x != a);
    assert_eq!(x.canvas().unwrap().element(), y.canvas().unwrap().element());
    assert!(!x.canvas().unwrap().ptr_eq(&y.canvas().unwrap()));
    let z = y.clone().with_canvas(Some(element), true);
    assert!(z != y);
    assert!(z != x);
}

#[test]
fn clearing_the_canvas_needs_no_main_thread() {
    let a = WindowAttributesWeb::default().with_canvas(None, false);
    assert!(a == WindowAttributesWeb::default());
}

#[test]
fn equality_compares_canvas_identity_and_flags() {
    let a = WindowAttributesWeb::default();
    let b = WindowAttributesWeb::default();
    assert!(a == b);
    assert!(a != b.clone().with_append(true));
    assert!(a != b.clone().with_prevent_default(false));
    assert!(a != b.clone().with_focusable(false));

    let x = WindowAttributesWeb::default()
        .with_canvas(Some(CanvasElement::from_handle(1)), true);
    let y = x.clone();
    let z = x.clone().with_append(true);
    assert!(x == y);
    assert!(x != z);
    assert!(x != a);
    assert!(a != x);
    assert!(z == y.with_append(true));
}

#[test]
fn clone_shares_the_canvas() {
    let x = WindowAttributesWeb::default()
        .with_canvas(Some(CanvasElement::from_handle(9)), true)
        .with_append(true);
    let y = x.clone();
    assert!(x == y);
    assert!(x.canvas().unwrap().ptr_eq(&y.canvas().unwrap()));
}

#[test]
fn default_strategies() {
    assert_eq!(PollStrategy::default(), PollStrategy::Scheduler);
    assert_eq!(WaitUntilStrategy::default(), WaitUntilStrategy::Scheduler);
    assert_ne!(PollStrategy::IdleCallback, PollStrategy::Scheduler);
    assert_ne!(WaitUntilStrategy::Worker, WaitUntilStrategy::Scheduler);
}

#[test]
fn custom_cursor_error_messages() {
    assert_eq!(CustomCursorError::Blob.to_string(), "failed to create `Blob`");
    assert_eq!(
        CustomCursorError::Decode("bad header".to_string()).to_string(),
        "failed to decode image: bad header"
    );
    assert_eq!(CustomCursorError::Decode(String::new()).to_string(), "failed to decode image: ");
}

#[test]
fn monitor_permission_error_messages() {
    assert_eq!(
        MonitorPermissionError::Denied.to_string(),
        "User has explicitly denied permission to query detailed monitor information"
    );
    assert_eq!(
        MonitorPermissionError::Prompt.to_string(),
        "User has not decided to give permission to query detailed monitor information"
    );
    assert_eq!(
        MonitorPermissionError::Unsupported.to_string(),
        "Browser does not support detailed monitor information"
    );
}

#[test]
fn orientation_lock_error_messages() {
    assert_eq!(
        OrientationLockError::Unsupported.to_string(),
        "Locking the screen orientation is not supported"
    );
    assert_eq!(OrientationLockError::Busy.to_string(), "Another locking call is in progress");
}

#[test]
fn orientation_values() {
    let d = OrientationData {
        orientation: Orientation::Portrait,
        flipped: true,
        natural: Orientation::Landscape,
    };
    assert_eq!(d, d.clone());
    assert_ne!(d.orientation, d.natural);
    assert_ne!(OrientationLock::Landscape { flipped: None }, OrientationLock::Landscape {
        flipped: Some(true)
    });
    assert_ne!(OrientationLock::Any, OrientationLock::Natural);
    assert_eq!(OrientationLock::Portrait { flipped: Some(false) }, OrientationLock::Portrait {
        flipped: Some(false)
    });
}
