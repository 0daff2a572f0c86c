//! What crosses the wire between the room and the games: commands going up,
//! events and snapshots coming down, and the constants both sides agree on.
//!
//! Times are whole milliseconds.

use vstd::prelude::*;

verus! {

/// Number of slides in the deck.
pub const SLIDE_COUNT: usize = 9;

/// Capacity of the mpsc channel's buffer.
pub const MPSC_CAPACITY: usize = 5;

/// Capacity of the broadcast channel's ring buffer.
pub const BROADCAST_CAPACITY: usize = 5;

/// Per-owner cap on live receivers for the watch game.
pub const WATCH_MAX_RX: usize = 6;

/// How long a value spends in flight, in milliseconds: the server actor
/// schedules landings with it and the client animates over the same span.
pub const MPSC_FLIGHT_MS: u64 = 700;

/// The client's keep-alive frame.
///
/// Deliberately not JSON: its only job is to prove the peer is alive, and the
/// arrival of the frame does that. Servers recognise it by value so a
/// heartbeat is never mistaken for a malformed command.
pub const KEEPALIVE: &'static str = "ping";

/// The websocket close code a game socket sends when its actor is being
/// restarted.
///
/// In the private range (4000-4999) so it cannot collide with a protocol
/// code. The client recognises it as "your actor is coming back" and retries
/// rather than reporting a disconnection.
pub const RESTARTING_CLOSE_CODE: u16 = 4001;

/// The timer future's period, in seconds: it resolves when the wall clock's
/// seconds next reach a multiple of this.
pub const TIMER_PERIOD_S: u64 = 10;

/// How many completed rounds the loop-select tape shows.
pub const LOOP_SELECT_HISTORY: usize = 8;

/// How many audience members may hold a player ticket at once.
///
/// The room gets a fixed pool of handles, so "the channel is full" is a fact
/// about the room rather than a number on a slide. Past this, joiners are
/// seated as spectators.
pub const PLAYER_TICKETS: usize = 24;

/// The query parameter carrying a ticket across the app and game sockets.
pub const TICKET_PARAM: &'static str = "t";

/// The query parameter carrying the presenter secret.
pub const PRESENTER_PARAM: &'static str = "k";

/// A colour of the button game.
#[derive(Debug, Clone, Copy, PartialEq, Eq, Structural)]
pub enum Color {
    Red,
    Green,
    Blue,
}

impl Color {
    /// The class name of each colour.
    pub open spec fn css(self) -> Seq<char> {
        match self {
            Color::Red => "red"@,
            Color::Green => "green"@,
            Color::Blue => "blue"@,
        }
    }

    /// The class name that paints an element in this colour.
    pub fn css_name(self) -> (name: &'static str)
        ensures
            name@ == self.css(),
    {
        match self {
            Color::Red => "red",
            Color::Green => "green",
            Color::Blue => "blue",
        }
    }

    /// The colour's name as shown to people.
    pub fn display(self) -> (name: &'static str)
        ensures
            name@ == match self {
                Color::Red => "Red"@,
                Color::Green => "Green"@,
                Color::Blue => "Blue"@,
            },
    {
        match self {
            Color::Red => "Red",
            Color::Green => "Green",
            Color::Blue => "Blue",
        }
    }
}

/// What the button future is doing.
#[derive(Debug, Clone, Copy, PartialEq, Eq, Structural)]
pub enum ButtonState {
    Idle,
    Pending,
    Ready(Color),
}

impl Default for ButtonState {
    fn default() -> (state: Self)
        ensures
            state == ButtonState::Idle,
    {
        ButtonState::Idle
    }
}

impl ButtonState {
    /// The class name for this state.
    pub fn css_name(self) -> (name: &'static str)
        ensures
            name@ == match self {
                ButtonState::Idle => "idle"@,
                ButtonState::Pending => "pending"@,
                ButtonState::Ready(_) => "ready"@,
            },
    {
        match self {
            ButtonState::Idle => "idle",
            ButtonState::Pending => "pending",
            ButtonState::Ready(_) => "ready",
        }
    }
}

/// The minigames, each backed by one actor on the server.
#[derive(Debug, Clone, Copy, PartialEq, Eq, Structural)]
pub enum Game {
    Timer,
    Button,
    Select,
    LoopSelect,
    Mpsc,
    Watch,
    Broadcast,
}

/// A command on the app plane.
#[derive(Debug, Clone, Copy, PartialEq, Eq, Structural)]
pub enum AppUp {
    AdvanceSlide,
    PreviousSlide,
    Restart { game: Game },
}

/// The app plane's state, pushed on connect and on every change.
///
/// Carries the connection's decided identity: the client never assumes a
/// role, it renders whatever the server granted.
#[derive(Debug, Clone, PartialEq, Eq)]
pub struct AppDown {
    pub slide: usize,
    pub role: Role,
    /// 1-based seat number for a ticket holder.
    pub seat: Option<usize>,
    /// The ticket the server issued, when this connection arrived without
    /// one. The client puts it in its URL so a reload keeps the seat.
    pub granted_ticket: Option<String>,
    /// Seats with a live socket right now, and the size of the pool.
    pub players_present: usize,
    pub players_capacity: usize,
    /// The URL the QR code encodes; only sent to the presenter.
    pub join_url: Option<String>,
}

/// A command of the button game.
#[derive(Debug, Clone, Copy, PartialEq, Eq, Structural)]
pub enum ButtonWire {
    Activate,
    Press { color: Color },
}

/// An event of the button game.
#[derive(Debug, Clone, Copy, PartialEq, Eq, Structural)]
pub enum ButtonEvent {
    Snapshot { state: ButtonState },
    Activated,
    Resolved { color: Color },
}

/// One live sender handle: a connected client (`conn == owner`) or a clone of
/// one (`owner` is the handle it was cloned from).
#[derive(Debug, Clone, Copy, PartialEq, Eq, Structural)]
pub struct SenderInfo {
    pub conn: u64,
    pub owner: u64,
    pub blocked: bool,
}

/// A command of the mpsc game.
#[derive(Debug, Clone, Copy, PartialEq, Eq, Structural)]
pub enum MpscWire {
    /// Send a value from the handle `conn`. Honored as-is by the local driver;
    /// the server validates that `conn` is a handle the connection owns
    /// (itself or one of its clones) and rejects foreign ones.
    Send { conn: u64, ch: char },
    Receive,
    /// Clone the requesting sender. `conn` is the fresh handle's id, allocated
    /// by the driver; the request itself is authenticated by the connection
    /// the wire arrives on. Only the connection currently holding the
    /// presenter slot may clone.
    CloneSender { conn: u64 },
    /// Claim the presenter slot for this connection (last claim wins). The
    /// slot is held until the claiming connection's socket closes or the
    /// actor restarts.
    ClaimPresenter,
}

/// A char on its way through the channel, tagged with the sender it came
/// from.
#[derive(Debug, Clone, Copy, PartialEq, Eq, Structural)]
pub struct BufferChar {
    pub ch: char,
    pub conn: u64,
}

/// The full authoritative state of the mpsc actor. Broadcast after every state
/// change; clients replace their local copy wholesale and derive everything
/// except in-flight animations from it.
#[derive(Debug, Clone, PartialEq)]
pub struct MpscSnapshot {
    pub senders: Vec<SenderInfo>,
    pub buffer: Vec<BufferChar>,
    /// Sends queued waiting for capacity, in FIFO wake order.
    pub blocked_sends: Vec<BufferChar>,
    pub in_flight: usize,
    pub waiting_receive: bool,
    pub last_received: Option<BufferChar>,
}

/// An event of the mpsc game. `Snapshot` is the only authority; everything
/// else is a cosmetic trigger (animations) that never mutates channel state
/// on the client.
#[derive(Debug, Clone, PartialEq)]
pub enum MpscEvent {
    Hello { conn: u64 },
    Snapshot { state: MpscSnapshot },
    SenderJoined { conn: u64, owner: u64 },
    SenderLeft { conn: u64 },
    /// A value left sender `conn` and is on its way (accepted or unblocked).
    InFlight { conn: u64, ch: char },
    /// A value finished its flight (into the buffer or a waiting receiver).
    Consumed { conn: u64, ch: char },
}

/// One live receiver handle of the watch game. `owner` is the connection that
/// created (or cloned) it and may operate it. `version` is the highest version
/// the receiver has observed so far (its `changed()` checkpoint).
#[derive(Debug, Clone, Copy, PartialEq, Eq, Structural)]
pub struct RxInfo {
    pub id: u64,
    pub owner: u64,
    pub version: u64,
    /// Blocked in `changed()`, waiting for the next *different* value.
    pub awaiting: bool,
    /// Holding a `borrow()` read guard; while any guard is held the
    /// presenter's send is blocked.
    pub borrowing: bool,
}

/// The full authoritative state of the watch actor. Unlike mpsc this is a
/// single shared cell, so sends move atomically: `pending_send` only exists
/// while a send is blocked by outstanding borrows.
#[derive(Debug, Clone, PartialEq)]
pub struct WatchSnapshot {
    /// Whether the presenter has created the channel (the create phase).
    pub created: bool,
    /// The contained value (the sender's rectangle shows it).
    pub value: Option<char>,
    /// Bumps on every accepted (non-dedup) send.
    pub version: u64,
    /// A send queued behind borrows, or None.
    pub pending_send: Option<char>,
    pub presenter: Option<u64>,
    pub receivers: Vec<RxInfo>,
}

/// A command of the watch game.
#[derive(Debug, Clone, Copy, PartialEq, Eq, Structural)]
pub enum WatchWire {
    /// Presenter creates the channel with an initial value.
    Create { init: Option<char> },
    /// Presenter replaces the contained value.
    Send { ch: char },
    /// Subscribe a brand-new receiver owned by the sender of this wire; it
    /// instantly starts at the current value.
    NewReceiver,
    /// Clone the receiver `rx` for the sender of this wire. Cloning preserves
    /// the source's seen-version but starts fresh (not awaiting/borrowing).
    CloneReceiver { rx: u64 },
    /// The owner toggles `changed()` on their receiver.
    AwaitChange { rx: u64 },
    /// The owner toggles a `borrow()` read guard on their receiver.
    LookInside { rx: u64 },
    /// The owner drops their receiver.
    DropReceiver { rx: u64 },
    ClaimPresenter,
}

/// An event of the watch game. `Snapshot` is the only authority; everything
/// else is a cosmetic trigger that never mutates channel state on the client.
#[derive(Debug, Clone, PartialEq)]
pub enum WatchEvent {
    Hello { conn: u64 },
    Snapshot { state: WatchSnapshot },
    Created,
    /// An accepted send landed: flights from the cell to every receiver.
    Changed { version: u64, ch: char },
    /// A `changed()` that was already stale completed at once, without waiting
    /// for a send. Purely a cue: the state is in the snapshot.
    ChangedImmediately { rx: u64 },
    SameValue,
    SendRefused,
    SendBlocked,
    /// Cosmetics for a `borrow()`: a gray flight from the cell to the rx.
    BorrowFlight { rx: u64 },
    ReceiverAdded { id: u64, owner: u64 },
    ReceiverRemoved { id: u64 },
}

/// What a receiver's last `recv()` yielded once it had fallen behind.
#[derive(Debug, Clone, Copy, PartialEq, Eq, Structural)]
pub enum BroadcastError {
    /// The receiver skipped this many evicted values; its index was reset to
    /// the oldest buffered value.
    Lagged(u64),
    /// Every sender handle has been dropped.
    Closed,
}

/// One receiver handle of the broadcast game. `owner` is the connection that
/// subscribed and may operate it. `next` is the seq of the next value it will
/// receive (values are numbered from 1). `lagged_total` accumulates every
/// missed value; `error` holds the pending `Lagged`/`Closed` outcome.
#[derive(Debug, Clone, Copy, PartialEq, Eq, Structural)]
pub struct RxState {
    pub receiver: u64,
    pub conn: u64,
    pub owner: u64,
    pub next: u64,
    pub lagged_total: u64,
    pub last: Option<BufferChar>,
    pub error: Option<BroadcastError>,
    /// Blocked in `recv()`: armed, completes on the next send.
    pub waiting: bool,
}

/// The full authoritative state of the broadcast actor. `tail` is the number
/// of values ever accepted; the buffer holds the last `min(tail, capacity)` of
/// them, oldest first.
#[derive(Debug, Clone, PartialEq)]
pub struct BroadcastSnapshot {
    pub senders: Vec<SenderInfo>,
    pub buffer: Vec<BufferChar>,
    pub tail: u64,
    pub receivers: Vec<RxState>,
    pub presenter: Option<u64>,
}

/// A command of the broadcast game.
#[derive(Debug, Clone, Copy, PartialEq, Eq, Structural)]
pub enum BroadcastWire {
    /// Send from the handle `conn` (must be owned by the connection).
    Send { conn: u64, ch: char },
    /// Clone the sender `source` (any live handle); the fresh handle is owned
    /// by the sender of this wire.
    CloneSender { source: u64 },
    /// Subscribe a receiver owned by the sender of this wire (one per
    /// connection; it starts at the tail, so it only sees values sent after
    /// it subscribed).
    Subscribe,
    /// Drop the receiver `receiver` (must be owned by the connection).
    Unsubscribe { receiver: u64 },
    /// Receive on the receiver `receiver` (must be owned by the connection).
    Receive { receiver: u64 },
    /// Claim the presenter slot: ownership of host-owned senders transfers to
    /// this connection (last claim wins).
    ClaimPresenter,
}

/// An event of the broadcast game. `Snapshot` is the only authority;
/// everything else is a cosmetic trigger (flights, flashes, badges).
#[derive(Debug, Clone, PartialEq)]
pub enum BroadcastEvent {
    Hello { conn: u64 },
    Snapshot { state: BroadcastSnapshot },
    SenderJoined { conn: u64, owner: u64 },
    SenderLeft { conn: u64 },
    ReceiverAdded { receiver: u64, owner: u64 },
    ReceiverRemoved { receiver: u64 },
    /// A value left sender `conn` and is flying into the buffer tail.
    InFlight { conn: u64, ch: char },
    /// `send` failed: a broadcast channel with no receivers left has nobody to
    /// deliver to, so the value is handed back.
    SendRefused,
    /// The oldest buffered value was evicted by a send.
    Evicted { ch: char },
    /// A receiver consumed a value.
    Received { receiver: u64, ch: char },
    /// A receiver woke up lagged: it missed `n` evicted values.
    Lagged { receiver: u64, n: u64 },
}

/// A command of the timer game.
#[derive(Debug, Clone, Copy, PartialEq, Eq, Structural)]
pub enum TimerWire {
    /// Await the timer: it resolves at the next period boundary.
    Activate,
    /// Drop the pending future without awaiting it.
    Cancel,
}

/// An event of the timer game.
#[derive(Debug, Clone, Copy, PartialEq, Eq, Structural)]
pub enum TimerEvent {
    Snapshot { state: TimerSnapshot },
    /// The future was created and will resolve in `waiting_ms`.
    Activated { waiting_ms: u64 },
    /// It resolved, yielding how long it waited.
    Resolved { waited_ms: u64 },
    Cancelled,
}

/// The timer's full state. `wall_ms` drives the seconds dial, so the server
/// and every phone draw the same hand in the same place.
#[derive(Debug, Clone, Copy, PartialEq, Eq, Structural)]
pub struct TimerSnapshot {
    pub pending: bool,
    /// Milliseconds into the current minute: where the dial's hand points.
    pub wall_ms: u64,
    /// Time left on the pending future, or `None` when idle. Negative once a
    /// snapshot outlives its own deadline.
    pub remaining_ms: Option<i64>,
    /// What the last completed await yielded.
    pub waited_ms: Option<u64>,
}

impl Default for TimerSnapshot {
    fn default() -> (snapshot: Self)
        ensures
            snapshot == (TimerSnapshot {
                pending: false,
                wall_ms: 0,
                remaining_ms: None,
                waited_ms: None,
            }),
    {
        TimerSnapshot { pending: false, wall_ms: 0, remaining_ms: None, waited_ms: None }
    }
}

/// Which branch of the `select!` completed first.
///
/// Carries the branch's value, not just its name: a select yields whatever the
/// winning future yielded, and the two branches yield different types.
#[derive(Debug, Clone, Copy, PartialEq, Eq, Structural)]
pub enum Won {
    Timer { waited_ms: u64 },
    Button { color: Color },
}

impl Won {
    /// The class name that marks a branch as the winner.
    pub fn css_name(self) -> (name: &'static str)
        ensures
            name@ == match self {
                Won::Timer { .. } => "timer"@,
                Won::Button { color } => color.css(),
            },
    {
        match self {
            Won::Timer { .. } => "timer",
            Won::Button { color } => color.css_name(),
        }
    }
}

/// A command of the select game.
#[derive(Debug, Clone, Copy, PartialEq, Eq, Structural)]
pub enum SelectWire {
    /// Enter the select, which creates both futures.
    Arm,
    Press { color: Color },
    /// Leave the select, dropping both branches.
    Reset,
}

/// An event of the select game.
#[derive(Debug, Clone, Copy, PartialEq, Eq, Structural)]
pub enum SelectEvent {
    Snapshot { state: SelectSnapshot },
    Armed,
    Won { won: Won },
    Reset,
}

/// The select's full state.
#[derive(Debug, Clone, Copy, PartialEq, Eq, Structural)]
pub struct SelectSnapshot {
    /// Inside the select, with both branches live.
    pub armed: bool,
    pub timer: TimerSnapshot,
    pub button: ButtonState,
    pub winner: Option<Won>,
}

impl Default for SelectSnapshot {
    fn default() -> (snapshot: Self)
        ensures
            !snapshot.armed,
            !snapshot.timer.pending,
            snapshot.timer.wall_ms == 0,
            snapshot.timer.remaining_ms is None,
            snapshot.timer.waited_ms is None,
            snapshot.button is Idle,
            snapshot.winner is None,
    {
        SelectSnapshot {
            armed: false,
            timer: TimerSnapshot {
                pending: false,
                wall_ms: 0,
                remaining_ms: None,
                waited_ms: None,
            },
            button: ButtonState::Idle,
            winner: None,
        }
    }
}

/// One completed trip around the loop.
#[derive(Debug, Clone, Copy, PartialEq, Eq, Structural)]
pub struct SelectWinner {
    /// 1-based, and never reused: the client keys its tape on it.
    pub round: u64,
    pub won: Won,
}

/// A command of the loop-select game.
#[derive(Debug, Clone, Copy, PartialEq, Eq, Structural)]
pub enum LoopSelectWire {
    Start,
    Stop,
    Press { color: Color },
    /// Empty the tape without breaking the loop.
    Clear,
}

/// An event of the loop-select game.
#[derive(Debug, Clone, PartialEq)]
pub enum LoopSelectEvent {
    Snapshot { state: LoopSelectSnapshot },
    Started,
    Stopped,
    /// A round finished; the loop is about to go around again.
    Completed { winner: SelectWinner },
    Cleared,
    /// What the inner select did. Nested rather than flattened so the two
    /// games can share the select's rendering.
    Select(SelectEvent),
}

/// The loop's full state.
#[derive(Debug, Clone, PartialEq)]
pub struct LoopSelectSnapshot {
    pub running: bool,
    pub select: SelectSnapshot,
    /// The last `LOOP_SELECT_HISTORY` rounds, oldest first.
    pub history: Vec<SelectWinner>,
    /// Rounds completed since the actor started, which is also the newest
    /// round's number.
    pub rounds: u64,
}

impl Default for LoopSelectSnapshot {
    fn default() -> (snapshot: Self)
        ensures
            !snapshot.running,
            !snapshot.select.armed,
            !snapshot.select.timer.pending,
            snapshot.select.timer.wall_ms == 0,
            snapshot.select.timer.remaining_ms is None,
            snapshot.select.timer.waited_ms is None,
            snapshot.select.button is Idle,
            snapshot.select.winner is None,
            snapshot.history@.len() == 0,
            snapshot.rounds == 0,
    {
        LoopSelectSnapshot {
            running: false,
            select: SelectSnapshot::default(),
            history: Vec::new(),
            rounds: 0,
        }
    }
}

/// What a connection is allowed to do, decided by the server at connect time
/// and echoed to the client so the UI can match it.
///
/// The client never picks its own role: it presents whatever credentials it
/// has in its URL and the server rules on them.
#[derive(Debug, Clone, Copy, PartialEq, Eq, Structural)]
pub enum Role {
    /// No ticket: may watch, may not act. The default for anyone who opens
    /// the URL without scanning.
    Spectator,
    /// Holds one of the `PLAYER_TICKETS` handles: may play every game.
    Player,
    /// Presented the presenter secret: may play, drive slides, claim the
    /// presenter slot in each game, and restart actors.
    Presenter,
}

impl Default for Role {
    fn default() -> (role: Self)
        ensures
            role == Role::Spectator,
    {
        Role::Spectator
    }
}

impl Role {
    /// Whether this role may act in the minigames at all.
    pub fn may_play(self) -> (may: bool)
        ensures
            may == !(self is Spectator),
    {
        match self {
            Role::Player | Role::Presenter => true,
            Role::Spectator => false,
        }
    }

    /// Whether this role may drive the deck and the game control slots.
    pub fn may_present(self) -> (may: bool)
        ensures
            may == (self is Presenter),
    {
        match self {
            Role::Presenter => true,
            _ => false,
        }
    }

    /// The role's name.
    pub fn label(self) -> (label: &'static str)
        ensures
            label@ == match self {
                Role::Spectator => "spectator"@,
                Role::Player => "player"@,
                Role::Presenter => "presenter"@,
            },
    {
        match self {
            Role::Spectator => "spectator",
            Role::Player => "player",
            Role::Presenter => "presenter",
        }
    }
}

/// The credentials a client presents when opening any socket, read from its
/// own URL. Absent fields simply mean "not claiming that".
#[derive(Debug, Clone, PartialEq, Eq)]
pub struct Credentials {
    pub ticket: Option<String>,
    pub presenter_key: Option<String>,
}

impl Default for Credentials {
    fn default() -> (credentials: Self)
        ensures
            credentials.ticket is None,
            credentials.presenter_key is None,
    {
        Credentials { ticket: None, presenter_key: None }
    }
}

} // verus!
