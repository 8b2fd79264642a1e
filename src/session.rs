use vstd::prelude::*;
use crate::board::{cleared, empty_row, full_rows_of, legal, settled, Board, Cell};
use crate::piece::{spawn_piece, Piece, FAR};
use crate::shape::Shape;

verus! {

/// Interval, in milliseconds, of the horizontal repeat and of the soft drop.
pub const SHORT_TICK_MS: u64 = 150;

/// Interval, in milliseconds, of ordinary gravity.
pub const GRAVITY_TICK_MS: u64 = 500;

/// Time, in milliseconds, that a piece may rest before it settles.
pub const LOCK_DELAY_MS: u64 = 150;

/// Where the session stands.
#[derive(Clone, Copy, Debug, PartialEq, Eq, Structural)]
pub enum Phase {
    /// The active piece can still move down.
    Falling,
    /// The active piece rests on the floor or on the stack; the lock timer runs.
    Locking,
    /// A new piece could not enter the board: the game is over.
    Over,
}

/// A pending horizontal move.
#[derive(Clone, Copy, Debug, PartialEq, Eq, Structural)]
pub enum HorizontalDirection {
    Left,
    Right,
}

/// How the active piece falls.
#[derive(Clone, Copy, Debug, PartialEq, Eq, Structural)]
pub enum VerticalDirection {
    /// One row per gravity tick.
    Down,
    /// One row at the short interval, then back to gravity.
    SoftDrop,
}

/// The player's input in one frame. When both directions are held, left wins.
#[derive(Clone, Copy, Debug, PartialEq, Eq, Structural)]
pub struct Input {
    pub left: bool,
    pub right: bool,
    pub soft_drop: bool,
    /// A rotate key went down in this frame (an edge, not a held key).
    pub rotate: bool,
}

/// What changed in a frame, for the presentation layer.
#[derive(Clone, Copy, Debug, PartialEq, Eq, Structural)]
pub enum Event {
    /// Nothing that ends or starts a phase.
    Quiet,
    /// The piece came to rest and the lock timer started.
    StartedLocking,
    /// The piece settled, this many rows were cleared, and a new piece entered.
    Locked(usize),
    /// The piece settled, and the next piece could not enter the board.
    BoardFull,
}

/// One game: the board, the active piece, and the clocks of the timed inputs.
pub struct Session {
    pub board: Board,
    /// The active piece; `None` once the game is over.
    pub piece: Option<Piece>,
    pub phase: Phase,
    /// The shape that enters after the active piece settles.
    pub next: Shape,
    pub side: Option<HorizontalDirection>,
    pub fall: VerticalDirection,
    pub last_side_ms: u64,
    pub last_gravity_ms: u64,
    pub last_soft_ms: u64,
    /// When the piece last came to rest (or, while it falls, the current frame).
    pub rest_since_ms: u64,
    /// Time of the latest frame.
    pub clock_ms: u64,
}

/// The session as values.
pub struct SessionView {
    pub grid: Seq<Seq<Cell>>,
    pub width: int,
    pub piece: Option<Piece>,
    pub phase: Phase,
    pub next: Shape,
    pub side: Option<HorizontalDirection>,
    pub fall: VerticalDirection,
    pub last_side_ms: u64,
    pub last_gravity_ms: u64,
    pub last_soft_ms: u64,
    pub rest_since_ms: u64,
    pub clock_ms: u64,
}

impl View for Session {
    type V = SessionView;

    open spec fn view(&self) -> SessionView {
        SessionView {
            grid: self.board@,
            width: self.board.spec_width(),
            piece: self.piece,
            phase: self.phase,
            next: self.next,
            side: self.side,
            fall: self.fall,
            last_side_ms: self.last_side_ms,
            last_gravity_ms: self.last_gravity_ms,
            last_soft_ms: self.last_soft_ms,
            rest_since_ms: self.rest_since_ms,
            clock_ms: self.clock_ms,
        }
    }
}

/// `q` stands on free cells of the session's board.
pub open spec fn fits(s: SessionView, q: Piece) -> bool {
    legal(s.grid, s.width, q.cells())
}

/// `q` rests: one row down it would not fit.
pub open spec fn resting(s: SessionView, q: Piece) -> bool {
    !fits(s, q.translated(0, 1))
}

/// The active piece of a session that has one.
pub open spec fn active(s: SessionView) -> Piece {
    s.piece->Some_0
}

/// Held keys become pending intents; left wins over right.
pub open spec fn take_input(s: SessionView, now: u64, input: Input) -> SessionView {
    SessionView {
        clock_ms: now,
        side: if input.left {
            Some(HorizontalDirection::Left)
        } else if input.right {
            Some(HorizontalDirection::Right)
        } else {
            s.side
        },
        fall: if input.soft_drop { VerticalDirection::SoftDrop } else { s.fall },
        ..s
    }
}

/// A rotate request turns the piece when the turned piece fits.
pub open spec fn rotate_stage(s: SessionView, rotate: bool) -> SessionView {
    let q = active(s).rotated();
    if rotate && fits(s, q) {
        SessionView { piece: Some(q), ..s }
    } else {
        s
    }
}

/// Columns that a side moves the piece by.
pub open spec fn side_dx(d: HorizontalDirection) -> int {
    match d {
        HorizontalDirection::Left => -1,
        HorizontalDirection::Right => 1,
    }
}

/// When the horizontal clock is due, the pending side move is made if the
/// moved piece fits, and is consumed either way.
pub open spec fn side_stage(s: SessionView, now: u64) -> SessionView {
    if now - s.last_side_ms >= SHORT_TICK_MS {
        let t = SessionView { side: None, last_side_ms: now, ..s };
        match s.side {
            Some(d) => {
                let q = active(s).translated(side_dx(d), 0);
                if fits(s, q) { SessionView { piece: Some(q), ..t } } else { t }
            },
            None => t,
        }
    } else {
        s
    }
}

/// A due soft drop moves the piece one row (if it fits) and turns back into
/// gravity; otherwise a due gravity tick moves the piece one row (if it fits).
pub open spec fn fall_stage(s: SessionView, now: u64) -> SessionView {
    let q = active(s).translated(0, 1);
    if s.fall == VerticalDirection::SoftDrop && now - s.last_soft_ms >= SHORT_TICK_MS {
        let t = SessionView { fall: VerticalDirection::Down, last_soft_ms: now, last_gravity_ms: now, ..s };
        if fits(s, q) { SessionView { piece: Some(q), ..t } } else { t }
    } else if s.fall == VerticalDirection::Down && now - s.last_gravity_ms >= GRAVITY_TICK_MS {
        let t = SessionView { last_gravity_ms: now, ..s };
        if fits(s, q) { SessionView { piece: Some(q), ..t } } else { t }
    } else {
        s
    }
}

/// The piece of shape `next` enters the board (or the game ends), with all
/// clocks set to `now` and no pending intent.
pub open spec fn spawn_stage(s: SessionView, now: u64, draw: Shape) -> SessionView {
    let q = spawn_piece(s.next, s.width);
    let t = SessionView {
        next: draw,
        side: None,
        fall: VerticalDirection::Down,
        last_side_ms: now,
        last_gravity_ms: now,
        last_soft_ms: now,
        rest_since_ms: now,
        ..s
    };
    if fits(s, q) {
        SessionView { piece: Some(q), phase: if resting(s, q) { Phase::Locking } else { Phase::Falling }, ..t }
    } else {
        SessionView { piece: None, phase: Phase::Over, ..t }
    }
}

/// The grid once the active piece has settled and the full rows are cleared.
pub open spec fn locked_grid(s: SessionView) -> Seq<Seq<Cell>> {
    let g = settled(s.grid, active(s).cells(), active(s).shape);
    cleared(g, s.width, full_rows_of(g))
}

/// Contact is measured: a piece that does not rest falls and its lock timer
/// is reset; a piece that rests starts (or keeps) its lock timer, and settles
/// once it has rested for `LOCK_DELAY_MS`.
pub open spec fn lock_stage(s: SessionView, now: u64, draw: Shape) -> (SessionView, Event) {
    let p = active(s);
    if !resting(s, p) {
        (SessionView { phase: Phase::Falling, rest_since_ms: now, ..s }, Event::Quiet)
    } else {
        let since = if s.phase == Phase::Locking { s.rest_since_ms } else { now };
        let t = SessionView { phase: Phase::Locking, rest_since_ms: since, ..s };
        if now - since < LOCK_DELAY_MS {
            (t, if s.phase == Phase::Locking { Event::Quiet } else { Event::StartedLocking })
        } else {
            let g = settled(s.grid, p.cells(), p.shape);
            let u = spawn_stage(SessionView { grid: locked_grid(s), ..t }, now, draw);
            (u, if u.piece is Some { Event::Locked(full_rows_of(g).len() as usize) } else { Event::BoardFull })
        }
    }
}

/// One frame: input, rotation, horizontal move, fall, then contact, lock,
/// line clear and spawn, in that order. A finished game only keeps time.
pub open spec fn frame(s: SessionView, now: u64, input: Input, draw: Shape) -> (SessionView, Event) {
    if s.piece is None {
        (SessionView { clock_ms: now, ..s }, Event::Quiet)
    } else {
        let s1 = take_input(s, now, input);
        let s2 = rotate_stage(s1, input.rotate);
        let s3 = side_stage(s2, now);
        let s4 = fall_stage(s3, now);
        lock_stage(s4, now, draw)
    }
}

/// The translate preconditions hold for a well-formed, fitting piece whose
/// pivot is not above the top.
proof fn lemma_room(b: &Board, p: Piece)
    requires
        b.wf(),
        p.wf(),
        0 <= p.pivot2.y,
        legal(b@, b.spec_width(), p.cells()),
    ensures
        -FAR <= p.pivot2.x - 2,
        p.pivot2.x + 2 <= FAR,
        p.pivot2.y + 2 <= FAR,
{
    b.lemma_dims();
    assert(p.cells()[0] == p.a);
}

impl Session {
    /// Clocks never run ahead of the latest frame.
    pub open spec fn clocks_ok(&self) -> bool {
        &&& self.last_side_ms <= self.clock_ms
        &&& self.last_gravity_ms <= self.clock_ms
        &&& self.last_soft_ms <= self.clock_ms
        &&& self.rest_since_ms <= self.clock_ms
    }

    /// A session with an active piece that fits its board, mid-frame.
    pub open spec fn movable(&self) -> bool {
        &&& self.board.wf()
        &&& self.clocks_ok()
        &&& self.piece matches Some(p) && {
            &&& p.wf()
            &&& 0 <= p.pivot2.y
            &&& fits(self@, p)
        }
        &&& self.phase != Phase::Over
    }

    /// Well formed between frames: either the game is over, or the active
    /// piece fits and the phase is `Locking` exactly when the piece rests.
    pub open spec fn wf(&self) -> bool {
        ||| {
            &&& self.board.wf()
            &&& self.clocks_ok()
            &&& self.piece is None
            &&& self.phase == Phase::Over
        }
        ||| {
            &&& self.movable()
            &&& (self.phase == Phase::Locking <==> resting(self@, active(self@)))
        }
    }

    /// Whether `q` stands on free cells.
    fn fits_here(&self, q: &Piece) -> (r: bool)
        requires
            self.board.wf(),
        ensures
            r == fits(self@, *q),
    {
        self.board.is_legal(&q.cell_list())
    }

    /// A new game on an empty board `width` by `height`: the piece of shape
    /// `first` enters at time `now`, and `next` waits.
    pub fn new(width: usize, height: usize, first: Shape, next: Shape, now: u64) -> (r: Session)
        requires
            width <= i32::MAX,
            height <= i32::MAX,
        ensures
            r.wf(),
            r@.grid == Seq::new(height as nat, |y: int| empty_row(width as int)),
            r@.width == width,
            r@ == spawn_stage(SessionView { next: first, clock_ms: now, ..r@ }, now, next),
    {
        let board = Board::new(width, height);
        let q = Piece::spawn(first, width);
        let mut s = Session {
            board,
            piece: None,
            phase: Phase::Over,
            next,
            side: None,
            fall: VerticalDirection::Down,
            last_side_ms: now,
            last_gravity_ms: now,
            last_soft_ms: now,
            rest_since_ms: now,
            clock_ms: now,
        };
        if s.fits_here(&q) {
            proof {
                lemma_room(&s.board, q);
            }
            let down = q.translate(0, 1);
            s.phase = if s.fits_here(&down) { Phase::Falling } else { Phase::Locking };
            s.piece = Some(q);
        }
        s
    }

    /// Turns the piece if asked and the turned piece fits.
    fn rotate_step(&mut self, rotate: bool)
        requires
            old(self).movable(),
        ensures
            final(self).movable(),
            final(self)@ == rotate_stage(old(self)@, rotate),
            final(self).phase == old(self).phase,
            final(self).rest_since_ms == old(self).rest_since_ms,
    {
        if rotate {
            if let Some(p) = self.piece {
                let q = p.rotate();
                if self.fits_here(&q) {
                    self.piece = Some(q);
                }
            }
        }
    }

    /// Makes a due horizontal move.
    fn side_step(&mut self, now: u64)
        requires
            old(self).movable(),
            old(self).clock_ms == now,
        ensures
            final(self).movable(),
            final(self).clock_ms == now,
            final(self)@ == side_stage(old(self)@, now),
            final(self).phase == old(self).phase,
            final(self).rest_since_ms == old(self).rest_since_ms,
    {
        if now - self.last_side_ms >= SHORT_TICK_MS {
            let side = self.side;
            self.side = None;
            self.last_side_ms = now;
            if let Some(p) = self.piece {
                proof {
                    lemma_room(&self.board, p);
                }
                match side {
                    Some(d) => {
                        let dx: i64 = match d {
                            HorizontalDirection::Left => -1,
                            HorizontalDirection::Right => 1,
                        };
                        let q = p.translate(dx, 0);
                        if self.fits_here(&q) {
                            self.piece = Some(q);
                        }
                    },
                    None => {},
                }
            }
        }
    }

    /// Makes a due soft drop or gravity step.
    fn fall_step(&mut self, now: u64)
        requires
            old(self).movable(),
            old(self).clock_ms == now,
        ensures
            final(self).movable(),
            final(self).clock_ms == now,
            final(self)@ == fall_stage(old(self)@, now),
            final(self).phase == old(self).phase,
            final(self).rest_since_ms == old(self).rest_since_ms,
    {
        if let Some(p) = self.piece {
            proof {
                lemma_room(&self.board, p);
            }
            let q = p.translate(0, 1);
            let soft_due = self.fall == VerticalDirection::SoftDrop && now - self.last_soft_ms >= SHORT_TICK_MS;
            let gravity_due = self.fall == VerticalDirection::Down && now - self.last_gravity_ms >= GRAVITY_TICK_MS;
            if soft_due {
                self.fall = VerticalDirection::Down;
                self.last_soft_ms = now;
                self.last_gravity_ms = now;
            } else if gravity_due {
                self.last_gravity_ms = now;
            }
            if (soft_due || gravity_due) && self.fits_here(&q) {
                self.piece = Some(q);
            }
        }
    }

    /// Brings in the next piece at time `now`, or ends the game.
    fn spawn_step(&mut self, now: u64, draw: Shape)
        requires
            old(self).board.wf(),
            old(self).clock_ms == now,
        ensures
            final(self).wf(),
            final(self).clock_ms == now,
            final(self)@ == spawn_stage(old(self)@, now, draw),
    {
        proof {
            self.board.lemma_dims();
        }
        let q = Piece::spawn(self.next, self.board.width());
        self.next = draw;
        self.side = None;
        self.fall = VerticalDirection::Down;
        self.last_side_ms = now;
        self.last_gravity_ms = now;
        self.last_soft_ms = now;
        self.rest_since_ms = now;
        if self.fits_here(&q) {
            proof {
                lemma_room(&self.board, q);
            }
            let down = q.translate(0, 1);
            self.phase = if self.fits_here(&down) { Phase::Falling } else { Phase::Locking };
            self.piece = Some(q);
        } else {
            self.piece = None;
            self.phase = Phase::Over;
        }
    }

    /// Measures contact, runs the lock timer, and settles a piece that has
    /// rested long enough.
    fn lock_step(&mut self, now: u64, draw: Shape) -> (r: Event)
        requires
            old(self).movable(),
            old(self).clock_ms == now,
        ensures
            final(self).wf(),
            final(self).clock_ms == now,
            (final(self)@, r) == lock_stage(old(self)@, now, draw),
            final(self).piece matches Some(p) ==> (final(self).phase == Phase::Locking <==> resting(final(self)@, p)),
            final(self).phase == Phase::Falling ==> final(self).rest_since_ms == now,
            old(self).phase == Phase::Locking && final(self).phase == Phase::Locking && r == Event::Quiet
                ==> final(self).rest_since_ms == old(self).rest_since_ms,
    {
        let p = match self.piece {
            Some(p) => p,
            None => {
                return Event::Quiet;
            },
        };
        proof {
            lemma_room(&self.board, p);
        }
        let down = p.translate(0, 1);
        if self.fits_here(&down) {
            self.phase = Phase::Falling;
            self.rest_since_ms = now;
            return Event::Quiet;
        }
        let was_locking = self.phase == Phase::Locking;
        if !was_locking {
            self.phase = Phase::Locking;
            self.rest_since_ms = now;
        }
        if now - self.rest_since_ms < LOCK_DELAY_MS {
            return if was_locking { Event::Quiet } else { Event::StartedLocking };
        }
        let cells = p.cell_list();
        self.board.settle(&cells, p.shape);
        let full = self.board.full_rows();
        self.board.clear_rows(&full);
        let n = full.len();
        self.spawn_step(now, draw);
        if self.piece.is_some() {
            Event::Locked(n)
        } else {
            Event::BoardFull
        }
    }

    /// Whether the active piece rests, so that one row down it would not fit.
    pub fn is_resting(&self) -> (r: bool)
        requires
            self.wf(),
        ensures
            r == (self.piece matches Some(p) && resting(self@, p)),
    {
        self.phase == Phase::Locking
    }

    /// How long, at time `now`, the piece has rested; zero while it falls.
    pub fn lock_elapsed(&self, now: u64) -> (r: u64)
        requires
            self.wf(),
            self.clock_ms <= now,
        ensures
            r == (if self.phase == Phase::Locking { (now - self.rest_since_ms) as u64 } else { 0 }),
    {
        if self.phase == Phase::Locking {
            now - self.rest_since_ms
        } else {
            0
        }
    }

    /// Whether the game has ended because a new piece could not enter.
    pub fn is_over(&self) -> (r: bool)
        ensures
            r == (self.phase == Phase::Over),
    {
        self.phase == Phase::Over
    }

    /// Starts over on an empty board of the same size, as on leaving play:
    /// no piece, intent or clock of the old game survives.
    pub fn reset(&mut self, first: Shape, next: Shape, now: u64)
        requires
            old(self).wf(),
        ensures
            final(self).wf(),
            final(self)@.width == old(self)@.width,
            final(self)@.grid == Seq::new(old(self)@.grid.len(), |y: int| empty_row(old(self)@.width)),
            final(self)@ == spawn_stage(SessionView { next: first, clock_ms: now, ..final(self)@ }, now, next),
    {
        proof {
            self.board.lemma_dims();
        }
        let fresh = Session::new(self.board.width(), self.board.height(), first, next, now);
        *self = fresh;
    }

    /// Advances the game by one frame at time `now` (milliseconds of a
    /// monotonic clock). `draw` is the shape queued if a new piece enters.
    pub fn update(&mut self, now: u64, input: Input, draw: Shape) -> (r: Event)
        requires
            old(self).wf(),
            old(self).clock_ms <= now,
        ensures
            final(self).wf(),
            (final(self)@, r) == frame(old(self)@, now, input, draw),
            final(self).piece matches Some(p) ==> (final(self).phase == Phase::Locking <==> resting(final(self)@, p)),
            final(self).phase == Phase::Falling ==> final(self).rest_since_ms == now,
            old(self).phase == Phase::Locking && final(self).phase == Phase::Locking && r == Event::Quiet
                ==> final(self).rest_since_ms == old(self).rest_since_ms,
    {
        self.clock_ms = now;
        if self.piece.is_none() {
            return Event::Quiet;
        }
        if input.left {
            self.side = Some(HorizontalDirection::Left);
        } else if input.right {
            self.side = Some(HorizontalDirection::Right);
        }
        if input.soft_drop {
            self.fall = VerticalDirection::SoftDrop;
        }
        self.rotate_step(input.rotate);
        self.side_step(now);
        self.fall_step(now);
        self.lock_step(now, draw)
    }
}

} // verus!
