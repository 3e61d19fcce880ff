//! The Web backend: window attributes, scheduling strategies, screen orientation and the
//! errors that the asynchronous requests of the backend report.
use vstd::prelude::*;
use vstd::std_specs::cmp::PartialEqSpec;
use std::sync::Arc;

verus! {

/// A canvas element of the Web page, named by the handle under which the JavaScript
/// bindings hold it.
#[derive(Clone, Copy, Debug, PartialEq, Eq, Structural)]
pub struct CanvasElement {
    handle: u32,
}

impl View for CanvasElement {
    type V = u32;

    closed spec fn view(&self) -> u32 {
        self.handle
    }
}

impl CanvasElement {
    /// The canvas element that the JavaScript bindings hold under `handle`.
    pub fn from_handle(handle: u32) -> (r: Self)
        ensures
            r@ == handle,
    {
        CanvasElement { handle }
    }

    /// The handle under which the JavaScript bindings hold the element.
    pub fn handle(&self) -> (r: u32)
        ensures
            r == self@,
    {
        self.handle
    }
}

/// What a shared canvas is: the address of the allocation that shares it, and the
/// element.
pub struct SharedCanvasView {
    pub address: usize,
    pub element: u32,
}

/// A canvas element shared between window attributes and the window that they create.
///
/// Only `WindowAttributesWeb::with_canvas` makes one, by moving the element into a new
/// shared allocation. Copies of attributes share that allocation, and two attributes
/// hold the same canvas exactly when their allocations are the same one, as
/// `Arc::ptr_eq` tells.
#[derive(Debug)]
pub struct SharedCanvas {
    element: Arc<CanvasElement>,
    address: usize,
}

impl View for SharedCanvas {
    type V = SharedCanvasView;

    closed spec fn view(&self) -> SharedCanvasView {
        SharedCanvasView { address: self.address, element: self.element@ }
    }
}

/// Calls `Arc::as_ptr` and gives the address of the shared allocation as an integer.
/// Nothing is stated of it: the allocator chooses it.
#[verifier::external_body]
fn allocation_address(shared: &Arc<CanvasElement>) -> usize {
    Arc::as_ptr(shared) as usize
}

/// Calls `Arc::clone`, which gives another pointer to the same allocation and so the same
/// element.
#[verifier::external_body]
fn share_again(shared: &Arc<CanvasElement>) -> (r: Arc<CanvasElement>)
    ensures
        r@ == shared@,
{
    Arc::clone(shared)
}

impl SharedCanvas {
    /// Moves `element` into a new shared allocation.
    fn new(element: CanvasElement) -> (r: Self)
        ensures
            r@.element == element@,
    {
        let element = Arc::new(element);
        let address = allocation_address(&element);
        SharedCanvas { element, address }
    }

    /// The address of the shared allocation.
    pub fn address(&self) -> (r: usize)
        ensures
            r == self@.address,
    {
        self.address
    }

    /// The shared element.
    pub fn element(&self) -> (r: CanvasElement)
        ensures
            r@ == self@.element,
    {
        *self.element
    }

    /// Whether both share the canvas through the same allocation.
    pub fn ptr_eq(&self, other: &SharedCanvas) -> (r: bool)
        ensures
            r == (self@.address == other@.address),
    {
        self.address == other.address
    }
}

impl Clone for SharedCanvas {
    /// Another handle on the same allocation.
    fn clone(&self) -> (r: Self)
        ensures
            r@ == self@,
    {
        SharedCanvas { element: share_again(&self.element), address: self.address }
    }
}

/// What window attributes are: the shared canvas, if one was given, and three flags.
pub struct WindowAttributesView {
    pub canvas: Option<SharedCanvasView>,
    pub prevent_default: bool,
    pub focusable: bool,
    pub append: bool,
}

/// The view of an optional shared canvas.
pub open spec fn canvas_view(c: Option<SharedCanvas>) -> Option<SharedCanvasView> {
    match c {
        Some(c) => Some(c@),
        None => None,
    }
}

/// Whether two optional shared canvases are the same: both absent, or both present and
/// the same sharing.
pub open spec fn same_canvas(a: Option<SharedCanvasView>, b: Option<SharedCanvasView>) -> bool {
    match (a, b) {
        (Some(x), Some(y)) => x.address == y.address,
        (None, None) => true,
        _ => false,
    }
}

/// What `==` means on window attributes: the same shared canvas (or none on both sides)
/// and the same three flags.
pub open spec fn attributes_eq(a: WindowAttributesView, b: WindowAttributesView) -> bool {
    &&& same_canvas(a.canvas, b.canvas)
    &&& a.prevent_default == b.prevent_default
    &&& a.focusable == b.focusable
    &&& a.append == b.append
}

/// Attributes of a window that only the Web backend reads.
#[derive(Debug)]
pub struct WindowAttributesWeb {
    canvas: Option<SharedCanvas>,
    prevent_default: bool,
    focusable: bool,
    append: bool,
}

impl View for WindowAttributesWeb {
    type V = WindowAttributesView;

    closed spec fn view(&self) -> WindowAttributesView {
        WindowAttributesView {
            canvas: canvas_view(self.canvas),
            prevent_default: self.prevent_default,
            focusable: self.focusable,
            append: self.append,
        }
    }
}

impl WindowAttributesWeb {
    /// Pass a canvas to be used for this window. If `None`, the default one will be
    /// created. In any case, the canvas won't be automatically inserted into the Web page.
    ///
    /// The canvas is moved into a new shared allocation, so the result holds a canvas that
    /// no attributes held before. Only the main thread may pass a canvas:
    /// `on_main_thread` tells whether the caller runs there.
    ///
    /// `None` by default.
    pub fn with_canvas(self, canvas: Option<CanvasElement>, on_main_thread: bool) -> (r: Self)
        requires
            canvas is Some ==> on_main_thread,
        ensures
            match canvas {
                None => r@ == (WindowAttributesView { canvas: None, ..self@ }),
                Some(e) => {
                    &&& r@.canvas matches Some(c) && c.element == e@
                    &&& self@.canvas matches Some(o) ==> r@.canvas->0.address != o.address
                    &&& r@.prevent_default == self@.prevent_default
                    &&& r@.focusable == self@.focusable
                    &&& r@.append == self@.append
                },
            },
    {
        let mut s = self;
        match canvas {
            Some(element) => {
                let mut fresh = SharedCanvas::new(element);
                if let Some(old) = &s.canvas {
                    if fresh.address == old.address {
                        // The old allocation is still alive here, so the allocator cannot
                        // have placed the new one at its address; should it report so
                        // anyway, the new canvas still must not pass for the old one.
                        fresh.address = if old.address == usize::MAX {
                            0
                        } else {
                            old.address + 1
                        };
                    }
                }
                s.canvas = Some(fresh);
            },
            None => {
                s.canvas = None;
            },
        }
        s
    }

    /// Sets whether `event.preventDefault()` should be called on events on the canvas that
    /// have side effects.
    ///
    /// Enabled by default.
    pub fn with_prevent_default(self, prevent_default: bool) -> (r: Self)
        ensures
            r@ == (WindowAttributesView { prevent_default, ..self@ }),
    {
        let mut s = self;
        s.prevent_default = prevent_default;
        s
    }

    /// Whether the canvas should be focusable using the tab key. This is necessary to
    /// capture canvas keyboard events.
    ///
    /// Enabled by default.
    pub fn with_focusable(self, focusable: bool) -> (r: Self)
        ensures
            r@ == (WindowAttributesView { focusable, ..self@ }),
    {
        let mut s = self;
        s.focusable = focusable;
        s
    }

    /// On window creation, append the canvas element to the Web page if it isn't already.
    ///
    /// Disabled by default.
    pub fn with_append(self, append: bool) -> (r: Self)
        ensures
            r@ == (WindowAttributesView { append, ..self@ }),
    {
        let mut s = self;
        s.append = append;
        s
    }

    /// The shared canvas, if one was given.
    pub fn canvas(&self) -> (r: Option<SharedCanvas>)
        ensures
            canvas_view(r) == self@.canvas,
    {
        match &self.canvas {
            Some(c) => Some(c.clone()),
            None => None,
        }
    }

    /// Whether `event.preventDefault()` is called on events with side effects.
    pub fn prevent_default(&self) -> (r: bool)
        ensures
            r == self@.prevent_default,
    {
        self.prevent_default
    }

    /// Whether the canvas is focusable with the tab key.
    pub fn focusable(&self) -> (r: bool)
        ensures
            r == self@.focusable,
    {
        self.focusable
    }

    /// Whether the canvas is appended to the page on window creation.
    pub fn append(&self) -> (r: bool)
        ensures
            r == self@.append,
    {
        self.append
    }
}

impl Clone for WindowAttributesWeb {
    /// A copy that shares the same canvas.
    fn clone(&self) -> (r: Self)
        ensures
            r@ == self@,
    {
        WindowAttributesWeb {
            canvas: match &self.canvas {
                Some(c) => Some(c.clone()),
                None => None,
            },
            prevent_default: self.prevent_default,
            focusable: self.focusable,
            append: self.append,
        }
    }
}

impl PartialEq for WindowAttributesWeb {
    fn eq(&self, other: &Self) -> (r: bool) {
        (match (&self.canvas, &other.canvas) {
            (Some(this), Some(other)) => this.ptr_eq(other),
            (None, None) => true,
            _ => false,
        }) && self.prevent_default == other.prevent_default && self.focusable == other.focusable
            && self.append == other.append
    }
}

impl vstd::std_specs::cmp::PartialEqSpecImpl for WindowAttributesWeb {
    open spec fn obeys_eq_spec() -> bool {
        true
    }

    open spec fn eq_spec(&self, other: &WindowAttributesWeb) -> bool {
        attributes_eq(self@, other@)
    }
}

/// Equality of window attributes is an equivalence: every value equals itself, and the
/// relation is symmetric and transitive.
pub proof fn lemma_attributes_eq_equivalence(
    a: WindowAttributesWeb,
    b: WindowAttributesWeb,
    c: WindowAttributesWeb,
)
    ensures
        a.eq_spec(&a),
        a.eq_spec(&b) ==> b.eq_spec(&a),
        a.eq_spec(&b) && b.eq_spec(&c) ==> a.eq_spec(&c),
{
}

/// What `==` on window attributes compares: equal attributes have the same three flags,
/// whatever their canvases, and either no canvas on both sides or canvases shared through
/// the same allocation; and attributes that agree in all of this are equal.
pub proof fn lemma_attributes_eq_compares(a: WindowAttributesWeb, b: WindowAttributesWeb)
    ensures
        a.eq_spec(&b) ==> a@.prevent_default == b@.prevent_default,
        a.eq_spec(&b) ==> a@.focusable == b@.focusable,
        a.eq_spec(&b) ==> a@.append == b@.append,
        a.eq_spec(&b) ==> (a@.canvas is None <==> b@.canvas is None),
        a.eq_spec(&b) && a@.canvas is Some && b@.canvas is Some ==> a@.canvas->0.address
            == b@.canvas->0.address,
        a@.prevent_default == b@.prevent_default && a@.focusable == b@.focusable && a@.append
            == b@.append && a@.canvas is None && b@.canvas is None ==> a.eq_spec(&b),
        a@.prevent_default == b@.prevent_default && a@.focusable == b@.focusable && a@.append
            == b@.append && a@.canvas is Some && b@.canvas is Some && a@.canvas->0.address
            == b@.canvas->0.address ==> a.eq_spec(&b),
{
}

/// Sharing a canvas gives attributes unlike the ones it started from: the new canvas is
/// never the one that they held, so the result is never equal to them.
pub proof fn lemma_with_canvas_is_new(
    a: WindowAttributesWeb,
    e: CanvasElement,
    on_main_thread: bool,
    r: WindowAttributesWeb,
)
    requires
        on_main_thread,
        call_ensures(WindowAttributesWeb::with_canvas, (a, Some(e), on_main_thread), r),
    ensures
        r@.canvas is Some,
        a@.canvas matches Some(o) ==> r@.canvas->0.address != o.address,
        !r.eq_spec(&a),
{
}

impl Default for WindowAttributesWeb {
    fn default() -> (r: Self)
        ensures
            r@ == (WindowAttributesView {
                canvas: None,
                prevent_default: true,
                focusable: true,
                append: false,
            }),
    {
        WindowAttributesWeb { canvas: None, prevent_default: true, focusable: true, append: false }
    }
}

/// Additional methods on a window that are specific to the Web.
pub trait WindowExtWeb {
    /// Returns `true` if calling `event.preventDefault()` is enabled.
    fn prevent_default(&self) -> bool;

    /// Sets whether `event.preventDefault()` should be called on events on the canvas that
    /// have side effects.
    ///
    /// For example, by default using the mouse wheel would cause the page to scroll,
    /// enabling this would prevent that.
    fn set_prevent_default(&self, prevent_default: bool);

    /// Returns whether a locked cursor grab returns raw, un-accelerated mouse input.
    fn is_cursor_lock_raw(&self) -> bool;
}

/// Strategy used for polling control flow.
#[derive(Clone, Copy, Debug, Eq, Hash, PartialEq, Structural)]
pub enum PollStrategy {
    /// Uses `Window.requestIdleCallback()` to queue the next event loop. If not available
    /// this will fallback to `setTimeout()`.
    ///
    /// This strategy will wait for the browser to enter an idle period before running and
    /// might be affected by browser throttling.
    IdleCallback,
    /// Uses the Prioritized Task Scheduling API to queue the next event loop. If not
    /// available this will fallback to `setTimeout()`.
    ///
    /// This strategy will run as fast as possible without disturbing users from
    /// interacting with the page and is not affected by browser throttling.
    ///
    /// This is the default strategy.
    Scheduler,
}

impl Default for PollStrategy {
    fn default() -> (r: Self)
        ensures
            r == PollStrategy::Scheduler,
    {
        PollStrategy::Scheduler
    }
}

/// Strategy used for waiting control flow.
#[derive(Clone, Copy, Debug, Eq, Hash, PartialEq, Structural)]
pub enum WaitUntilStrategy {
    /// Uses the Prioritized Task Scheduling API to queue the next event loop. If not
    /// available this will fallback to `setTimeout()`.
    ///
    /// This strategy is commonly not affected by browser throttling unless the window is
    /// not focused.
    ///
    /// This is the default strategy.
    Scheduler,
    /// Equal to `Scheduler` but wakes up the event loop from a worker.
    ///
    /// This strategy is commonly not affected by browser throttling regardless of window
    /// focus.
    Worker,
}

impl Default for WaitUntilStrategy {
    fn default() -> (r: Self)
        ensures
            r == WaitUntilStrategy::Scheduler,
    {
        WaitUntilStrategy::Scheduler
    }
}

/// Why a custom cursor could not be created.
#[derive(Clone, Debug, Eq, Hash, PartialEq)]
pub enum CustomCursorError {
    Blob,
    Decode(String),
}

/// The message that describes a custom cursor error.
pub open spec fn custom_cursor_error_message(e: CustomCursorError) -> Seq<char> {
    match e {
        CustomCursorError::Blob => "failed to create `Blob`"@,
        CustomCursorError::Decode(error) => "failed to decode image: "@ + error@,
    }
}

impl CustomCursorError {
    /// The human-readable description of the error.
    pub fn to_string(&self) -> (r: String)
        ensures
            r@ == custom_cursor_error_message(*self),
    {
        match self {
            CustomCursorError::Blob => String::from_str("failed to create `Blob`"),
            CustomCursorError::Decode(error) => {
                let mut s = String::from_str("failed to decode image: ");
                s.append(error.as_str());
                s
            },
        }
    }
}

/// Why detailed monitor information may not be queried.
#[derive(Clone, Copy, Debug, Eq, Hash, PartialEq, Structural)]
pub enum MonitorPermissionError {
    /// User has explicitly denied permission to query detailed monitor information.
    Denied,
    /// User has not decided to give permission to query detailed monitor information.
    Prompt,
    /// Browser does not support detailed monitor information.
    Unsupported,
}

/// The message that describes a monitor permission error.
pub open spec fn monitor_permission_error_message(e: MonitorPermissionError) -> Seq<char> {
    match e {
        MonitorPermissionError::Denied => "User has explicitly denied permission to query detailed monitor information"@,
        MonitorPermissionError::Prompt => "User has not decided to give permission to query detailed monitor information"@,
        MonitorPermissionError::Unsupported => "Browser does not support detailed monitor information"@,
    }
}

impl MonitorPermissionError {
    /// The human-readable description of the error.
    pub fn to_string(&self) -> (r: String)
        ensures
            r@ == monitor_permission_error_message(*self),
    {
        match self {
            MonitorPermissionError::Denied => String::from_str(
                "User has explicitly denied permission to query detailed monitor information",
            ),
            MonitorPermissionError::Prompt => String::from_str(
                "User has not decided to give permission to query detailed monitor information",
            ),
            MonitorPermissionError::Unsupported => String::from_str(
                "Browser does not support detailed monitor information",
            ),
        }
    }
}

/// Additional methods on a monitor handle that are specific to the Web.
pub trait MonitorHandleExtWeb {
    /// Returns whether the screen is internal to the device or external.
    ///
    /// External devices are generally manufactured separately from the device they are
    /// attached to and can be connected and disconnected as needed, whereas internal screens
    /// are part of the device and not intended to be disconnected.
    fn is_internal(&self) -> Option<bool>;

    /// Returns screen orientation data for this monitor.
    fn orientation(&self) -> OrientationData;

    /// Unlock the screen orientation.
    ///
    /// Will fail if a locking call is in progress.
    fn unlock(&self) -> Result<(), OrientationLockError>;

    /// Returns whether this monitor handle was created using detailed monitor permissions.
    /// If `false` will always represent the current monitor the browser window is in
    /// instead of a specific monitor.
    fn is_detailed(&self) -> bool;
}

/// Screen orientation data.
#[derive(Clone, Copy, Debug, Eq, Hash, PartialEq, Structural)]
pub struct OrientationData {
    /// The orientation.
    pub orientation: Orientation,
    /// `true` if the orientation is flipped upside down.
    pub flipped: bool,
    /// The most natural orientation for the screen. Computer monitors are commonly naturally
    /// landscape mode, while mobile phones are commonly naturally portrait mode.
    pub natural: Orientation,
}

/// Screen orientation.
#[derive(Clone, Copy, Debug, Eq, Hash, PartialEq, Structural)]
pub enum Orientation {
    /// The screen's aspect ratio has a width greater than the height.
    Landscape,
    /// The screen's aspect ratio has a height greater than the width.
    Portrait,
}

/// Screen orientation lock options. Represents which orientations a user can use.
#[derive(Clone, Copy, Debug, Eq, Hash, PartialEq, Structural)]
pub enum OrientationLock {
    /// User is free to use any orientation.
    Any,
    /// User is locked to the most upright natural orientation for the screen.
    Natural,
    /// User is locked to landscape mode.
    Landscape {
        /// - `None`: User is locked to both upright or upside down landscape mode.
        /// - `true`: User is locked to upright landscape mode.
        /// - `false`: User is locked to upside down landscape mode.
        flipped: Option<bool>,
    },
    /// User is locked to portrait mode.
    Portrait {
        /// - `None`: User is locked to both upright or upside down portrait mode.
        /// - `true`: User is locked to upright portrait mode.
        /// - `false`: User is locked to upside down portrait mode.
        flipped: Option<bool>,
    },
}

/// Why the screen orientation could not be locked or unlocked.
#[derive(Clone, Copy, Debug, Eq, Hash, PartialEq, Structural)]
pub enum OrientationLockError {
    Unsupported,
    Busy,
}

/// The message that describes an orientation lock error.
pub open spec fn orientation_lock_error_message(e: OrientationLockError) -> Seq<char> {
    match e {
        OrientationLockError::Unsupported => "Locking the screen orientation is not supported"@,
        OrientationLockError::Busy => "Another locking call is in progress"@,
    }
}

impl OrientationLockError {
    /// The human-readable description of the error.
    pub fn to_string(&self) -> (r: String)
        ensures
            r@ == orientation_lock_error_message(*self),
    {
        match self {
            OrientationLockError::Unsupported => String::from_str(
                "Locking the screen orientation is not supported",
            ),
            OrientationLockError::Busy => String::from_str("Another locking call is in progress"),
        }
    }
}

} // verus!
