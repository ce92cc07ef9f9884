use vstd::prelude::*;

verus! {

/// The keys the viewer tells apart; every other key is `Other`.
#[derive(Clone, Copy, Debug, PartialEq, Eq)]
pub enum Key {
    ArrowRight,
    ArrowLeft,
    ArrowUp,
    ArrowDown,
    PageUp,
    PageDown,
    KeyW,
    KeyA,
    KeyE,
    KeyS,
    KeyR,
    KeyD,
    KeyQ,
    Escape,
    Other,
}

/// A point of the scene in whole world units.
#[derive(Clone, Copy, Debug, PartialEq, Eq)]
pub struct Position {
    pub x: i64,
    pub y: i64,
    pub z: i64,
}

/// Where the eye is and the point it looks at.
#[derive(Clone, Copy, Debug, PartialEq, Eq)]
pub struct CameraRig {
    pub camera: Position,
    pub focus: Position,
}

/// How far one key press moves the eye or the focus point.
pub const MOVEMENT: i64 = 4;

/// A coordinate one step up; it stays at the largest value once there.
pub open spec fn step_up(v: i64) -> i64 {
    if v > i64::MAX - MOVEMENT { i64::MAX } else { (v + MOVEMENT) as i64 }
}

/// A coordinate one step down; it stays at the smallest value once there.
pub open spec fn step_down(v: i64) -> i64 {
    if v < i64::MIN + MOVEMENT { i64::MIN } else { (v - MOVEMENT) as i64 }
}

/// The axis along which a key moves a point.
#[derive(Clone, Copy, Debug, PartialEq, Eq)]
pub enum Axis {
    X,
    Y,
    Z,
}

/// What a key press does to the rig.
#[derive(Clone, Copy, Debug, PartialEq, Eq)]
pub enum CameraCommand {
    /// Move the eye (`focus == false`) or the focus point along an axis.
    Move { focus: bool, axis: Axis, up: bool },
    /// Put the eye and the focus back at their reset places.
    Reset,
}

/// The command bound to a key, if any.
pub open spec fn key_command(key: Key) -> Option<CameraCommand> {
    match key {
        Key::ArrowRight => Some(CameraCommand::Move { focus: false, axis: Axis::X, up: true }),
        Key::ArrowLeft => Some(CameraCommand::Move { focus: false, axis: Axis::X, up: false }),
        Key::ArrowUp => Some(CameraCommand::Move { focus: false, axis: Axis::Y, up: false }),
        Key::ArrowDown => Some(CameraCommand::Move { focus: false, axis: Axis::Y, up: true }),
        Key::PageUp => Some(CameraCommand::Move { focus: false, axis: Axis::Z, up: true }),
        Key::PageDown => Some(CameraCommand::Move { focus: false, axis: Axis::Z, up: false }),
        Key::KeyW => Some(CameraCommand::Move { focus: true, axis: Axis::X, up: true }),
        Key::KeyA => Some(CameraCommand::Move { focus: true, axis: Axis::X, up: false }),
        Key::KeyE => Some(CameraCommand::Move { focus: true, axis: Axis::Y, up: true }),
        Key::KeyS => Some(CameraCommand::Move { focus: true, axis: Axis::Y, up: false }),
        Key::KeyR => Some(CameraCommand::Move { focus: true, axis: Axis::Z, up: true }),
        Key::KeyD => Some(CameraCommand::Move { focus: true, axis: Axis::Z, up: false }),
        Key::KeyQ => Some(CameraCommand::Reset),
        _ => None,
    }
}

/// A point moved one step along an axis.
pub open spec fn moved(p: Position, axis: Axis, up: bool) -> Position {
    let f = |v: i64| if up { step_up(v) } else { step_down(v) };
    match axis {
        Axis::X => Position { x: f(p.x), ..p },
        Axis::Y => Position { y: f(p.y), ..p },
        Axis::Z => Position { z: f(p.z), ..p },
    }
}

/// Where the rig stands after the reset key.
pub open spec fn reset_rig() -> CameraRig {
    CameraRig { camera: Position { x: 0, y: 0, z: 20 }, focus: Position { x: 0, y: 0, z: 0 } }
}

/// Where the rig stands when the viewer starts.
pub open spec fn initial_rig() -> CameraRig {
    CameraRig { camera: Position { x: 0, y: 0, z: 10 }, focus: Position { x: 0, y: 0, z: 0 } }
}

/// The rig after a command.
pub open spec fn apply_command(rig: CameraRig, cmd: CameraCommand) -> CameraRig {
    match cmd {
        CameraCommand::Move { focus, axis, up } => if focus {
            CameraRig { focus: moved(rig.focus, axis, up), ..rig }
        } else {
            CameraRig { camera: moved(rig.camera, axis, up), ..rig }
        },
        CameraCommand::Reset => reset_rig(),
    }
}

/// The rig after a key press: bound keys apply their command, others change nothing.
pub open spec fn after_key(rig: CameraRig, key: Key) -> CameraRig {
    match key_command(key) {
        Some(cmd) => apply_command(rig, cmd),
        None => rig,
    }
}

fn step(v: i64, up: bool) -> (r: i64)
    ensures
        r == (if up { step_up(v) } else { step_down(v) }),
{
    if up {
        if v > i64::MAX - MOVEMENT { i64::MAX } else { v + MOVEMENT }
    } else {
        if v < i64::MIN + MOVEMENT { i64::MIN } else { v - MOVEMENT }
    }
}

impl Position {
    /// This point moved one step along `axis`, up or down.
    pub fn moved(self, axis: Axis, up: bool) -> (p: Position)
        ensures
            p == moved(self, axis, up),
    {
        match axis {
            Axis::X => Position { x: step(self.x, up), ..self },
            Axis::Y => Position { y: step(self.y, up), ..self },
            Axis::Z => Position { z: step(self.z, up), ..self },
        }
    }
}

impl Key {
    /// The command bound to this key, if any.
    pub fn command(self) -> (c: Option<CameraCommand>)
        ensures
            c == key_command(self),
    {
        match self {
            Key::ArrowRight => Some(CameraCommand::Move { focus: false, axis: Axis::X, up: true }),
            Key::ArrowLeft => Some(CameraCommand::Move { focus: false, axis: Axis::X, up: false }),
            Key::ArrowUp => Some(CameraCommand::Move { focus: false, axis: Axis::Y, up: false }),
            Key::ArrowDown => Some(CameraCommand::Move { focus: false, axis: Axis::Y, up: true }),
            Key::PageUp => Some(CameraCommand::Move { focus: false, axis: Axis::Z, up: true }),
            Key::PageDown => Some(CameraCommand::Move { focus: false, axis: Axis::Z, up: false }),
            Key::KeyW => Some(CameraCommand::Move { focus: true, axis: Axis::X, up: true }),
            Key::KeyA => Some(CameraCommand::Move { focus: true, axis: Axis::X, up: false }),
            Key::KeyE => Some(CameraCommand::Move { focus: true, axis: Axis::Y, up: true }),
            Key::KeyS => Some(CameraCommand::Move { focus: true, axis: Axis::Y, up: false }),
            Key::KeyR => Some(CameraCommand::Move { focus: true, axis: Axis::Z, up: true }),
            Key::KeyD => Some(CameraCommand::Move { focus: true, axis: Axis::Z, up: false }),
            Key::KeyQ => Some(CameraCommand::Reset),
            _ => None,
        }
    }
}

impl CameraRig {
    /// The rig as the viewer starts: the eye ten units out on the z axis,
    /// looking at the origin.
    pub fn new() -> (rig: CameraRig)
        ensures
            rig == initial_rig(),
    {
        CameraRig { camera: Position { x: 0, y: 0, z: 10 }, focus: Position { x: 0, y: 0, z: 0 } }
    }

    /// Applies a command to the rig.
    pub fn apply(&mut self, cmd: CameraCommand)
        ensures
            *final(self) == apply_command(*old(self), cmd),
    {
        match cmd {
            CameraCommand::Move { focus, axis, up } => {
                if focus {
                    self.focus = self.focus.moved(axis, up);
                } else {
                    self.camera = self.camera.moved(axis, up);
                }
            },
            CameraCommand::Reset => {
                self.camera = Position { x: 0, y: 0, z: 20 };
                self.focus = Position { x: 0, y: 0, z: 0 };
            },
        }
    }

    /// Handles a key press; tells whether the key is bound to a camera command.
    pub fn press(&mut self, key: Key) -> (handled: bool)
        ensures
            handled == key_command(key).is_some(),
            *final(self) == after_key(*old(self), key),
    {
        match key.command() {
            Some(cmd) => {
                self.apply(cmd);
                true
            },
            None => false,
        }
    }
}

/// The key whose press undoes a press of `key`, for the keys that move a point.
pub open spec fn opposite_key(key: Key) -> Option<Key> {
    match key {
        Key::ArrowRight => Some(Key::ArrowLeft),
        Key::ArrowLeft => Some(Key::ArrowRight),
        Key::ArrowUp => Some(Key::ArrowDown),
        Key::ArrowDown => Some(Key::ArrowUp),
        Key::PageUp => Some(Key::PageDown),
        Key::PageDown => Some(Key::PageUp),
        Key::KeyW => Some(Key::KeyA),
        Key::KeyA => Some(Key::KeyW),
        Key::KeyE => Some(Key::KeyS),
        Key::KeyS => Some(Key::KeyE),
        Key::KeyR => Some(Key::KeyD),
        Key::KeyD => Some(Key::KeyR),
        _ => None,
    }
}

/// Every coordinate of the point is at least one step away from the ends of
/// the range, so a step either way is exact.
pub open spec fn within_reach(p: Position) -> bool {
    &&& i64::MIN + MOVEMENT <= p.x <= i64::MAX - MOVEMENT
    &&& i64::MIN + MOVEMENT <= p.y <= i64::MAX - MOVEMENT
    &&& i64::MIN + MOVEMENT <= p.z <= i64::MAX - MOVEMENT
}

/// A movement key followed by its opposite leaves the rig where it was.
pub proof fn lemma_opposite_keys_cancel(rig: CameraRig, key: Key)
    requires
        within_reach(rig.camera),
        within_reach(rig.focus),
        opposite_key(key) is Some,
    ensures
        after_key(after_key(rig, key), opposite_key(key)->0) == rig,
{
}

/// A movement key changes exactly one coordinate, by exactly one step, when
/// that coordinate is within reach.
pub proof fn lemma_move_changes_one_coordinate(rig: CameraRig, key: Key)
    requires
        within_reach(rig.camera),
        within_reach(rig.focus),
        opposite_key(key) is Some,
    ensures
        ({
            let r = after_key(rig, key);
            let d = |a: i64, b: i64| if a >= b { a - b } else { b - a };
            d(r.camera.x, rig.camera.x) + d(r.camera.y, rig.camera.y) + d(r.camera.z, rig.camera.z)
                + d(r.focus.x, rig.focus.x) + d(r.focus.y, rig.focus.y) + d(r.focus.z, rig.focus.z)
                == MOVEMENT
        }),
{
}

/// The reset key puts the rig in the same place whatever state it was in,
/// and pressing it again changes nothing.
pub proof fn lemma_reset_is_absolute(a: CameraRig, b: CameraRig)
    ensures
        after_key(a, Key::KeyQ) == after_key(b, Key::KeyQ),
        after_key(after_key(a, Key::KeyQ), Key::KeyQ) == after_key(a, Key::KeyQ),
        after_key(a, Key::KeyQ) == reset_rig(),
{
}

/// Keys without a command leave the rig unchanged.
pub proof fn lemma_unbound_keys_change_nothing(rig: CameraRig, key: Key)
    requires
        key_command(key) is None,
    ensures
        after_key(rig, key) == rig,
{
}

/// `r` is `rig` with the eye shifted by `(dx, dy, dz)` and the focus untouched.
pub open spec fn eye_shifted(rig: CameraRig, r: CameraRig, dx: int, dy: int, dz: int) -> bool {
    &&& r.focus == rig.focus
    &&& r.camera.x == rig.camera.x + dx
    &&& r.camera.y == rig.camera.y + dy
    &&& r.camera.z == rig.camera.z + dz
}

/// `r` is `rig` with the focus shifted by `(dx, dy, dz)` and the eye untouched.
pub open spec fn focus_shifted(rig: CameraRig, r: CameraRig, dx: int, dy: int, dz: int) -> bool {
    &&& r.camera == rig.camera
    &&& r.focus.x == rig.focus.x + dx
    &&& r.focus.y == rig.focus.y + dy
    &&& r.focus.z == rig.focus.z + dz
}

/// What every bound key does, from any rig whose coordinates are within reach:
/// the arrows move the eye along x (right +4, left -4) and y (up -4, down +4),
/// Page Up/Down move it along z (+4/-4); W/A move the focus along x (+4/-4),
/// E/S along y (+4/-4), R/D along z (+4/-4); Q puts the eye at (0, 0, 20)
/// and the focus at the origin.
pub proof fn lemma_key_effects(rig: CameraRig)
    requires
        within_reach(rig.camera),
        within_reach(rig.focus),
    ensures
        eye_shifted(rig, after_key(rig, Key::ArrowRight), 4, 0, 0),
        eye_shifted(rig, after_key(rig, Key::ArrowLeft), -4, 0, 0),
        eye_shifted(rig, after_key(rig, Key::ArrowUp), 0, -4, 0),
        eye_shifted(rig, after_key(rig, Key::ArrowDown), 0, 4, 0),
        eye_shifted(rig, after_key(rig, Key::PageUp), 0, 0, 4),
        eye_shifted(rig, after_key(rig, Key::PageDown), 0, 0, -4),
        focus_shifted(rig, after_key(rig, Key::KeyW), 4, 0, 0),
        focus_shifted(rig, after_key(rig, Key::KeyA), -4, 0, 0),
        focus_shifted(rig, after_key(rig, Key::KeyE), 0, 4, 0),
        focus_shifted(rig, after_key(rig, Key::KeyS), 0, -4, 0),
        focus_shifted(rig, after_key(rig, Key::KeyR), 0, 0, 4),
        focus_shifted(rig, after_key(rig, Key::KeyD), 0, 0, -4),
        after_key(rig, Key::KeyQ).camera.x == 0,
        after_key(rig, Key::KeyQ).camera.y == 0,
        after_key(rig, Key::KeyQ).camera.z == 20,
        after_key(rig, Key::KeyQ).focus.x == 0,
        after_key(rig, Key::KeyQ).focus.y == 0,
        after_key(rig, Key::KeyQ).focus.z == 0,
        after_key(rig, Key::Escape) == rig,
        after_key(rig, Key::Other) == rig,
{
}

/// The rig the viewer starts with: the eye at (0, 0, 10), looking at the origin.
pub proof fn lemma_initial_rig()
    ensures
        initial_rig().camera.x == 0,
        initial_rig().camera.y == 0,
        initial_rig().camera.z == 10,
        initial_rig().focus.x == 0,
        initial_rig().focus.y == 0,
        initial_rig().focus.z == 0,
{
}

/// Exactly the thirteen movement and reset keys are handled.
pub proof fn lemma_bound_keys()
    ensures
        forall|k: Key| #[trigger] key_command(k) is Some <==> !(k == Key::Escape || k == Key::Other),
{
    assert forall|k: Key| #[trigger] key_command(k) is Some <==> !(k == Key::Escape || k == Key::Other) by {
        match k {
            Key::Escape => {},
            Key::Other => {},
            _ => {},
        }
    }
}

} // verus!
