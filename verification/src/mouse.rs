//! SGR mouse sequences in the bytes of the local terminal, and where each of
//! them goes.

use vstd::prelude::*;

verus! {

// ---------------------------------------------------------------------------
// one sequence

/// Whether `b` is one of the ten ASCII digits.
pub open spec fn is_digit_byte(b: u8) -> bool {
    0x30 <= b <= 0x39
}

/// Where the row of digits that starts at `i` ends.
pub open spec fn run_end(bytes: Seq<u8>, i: int) -> int
    decreases bytes.len() - i,
{
    if 0 <= i < bytes.len() && is_digit_byte(bytes[i]) {
        run_end(bytes, i + 1)
    } else {
        i
    }
}

/// What a row of digits stands for in decimal.
pub open spec fn run_value(digits: Seq<u8>) -> nat
    decreases digits.len(),
{
    if digits.len() == 0 {
        0
    } else {
        run_value(digits.drop_last()) * 10 + (digits.last() - 0x30) as nat
    }
}

/// `n`, or the largest number of 32 bits where `n` is above it.
pub open spec fn capped(n: nat) -> u32 {
    if n <= u32::MAX {
        n as u32
    } else {
        u32::MAX
    }
}

/// Whether a mouse sequence may begin at `at`: `ESC [ <`.
pub open spec fn marker_at(bytes: Seq<u8>, at: int) -> bool {
    0 <= at && at + 3 <= bytes.len() && bytes[at] == 0x1b && bytes[at + 1] == 0x5b && bytes[at + 2]
        == 0x3c
}

/// Whether the byte at `i` is `b`.
pub open spec fn byte_at(bytes: Seq<u8>, i: int, b: u8) -> bool {
    0 <= i < bytes.len() && bytes[i] == b
}

/// The mouse event that stands at `at`: `ESC [ < button ; column ; row`, then `M`
/// for a press or `m` for a release. Button, column, row, press, and how many
/// bytes it takes. Numbers too large for 32 bits count as the largest one.
pub open spec fn mouse_at(bytes: Seq<u8>, at: int) -> Option<(u32, u32, u32, bool, int)> {
    let first = run_end(bytes, at + 3);
    let second = run_end(bytes, first + 1);
    let third = run_end(bytes, second + 1);
    if {
        &&& marker_at(bytes, at)
        &&& at + 3 < first && byte_at(bytes, first, 0x3b)
        &&& first + 1 < second && byte_at(bytes, second, 0x3b)
        &&& second + 1 < third && (byte_at(bytes, third, 0x4d) || byte_at(bytes, third, 0x6d))
    } {
        Some(
            (
                capped(run_value(bytes.subrange(at + 3, first))),
                capped(run_value(bytes.subrange(first + 1, second))),
                capped(run_value(bytes.subrange(second + 1, third))),
                bytes[third] == 0x4d,
                third + 1 - at,
            ),
        )
    } else {
        None
    }
}

/// Reads the row of digits that starts at `from`: what it stands for, and where
/// it ends.
fn read_run(bytes: &[u8], from: usize) -> (r: (u32, usize))
    requires
        from <= bytes@.len(),
    ensures
        r.1 == run_end(bytes@, from as int),
        from <= r.1 <= bytes@.len(),
        r.0 == capped(run_value(bytes@.subrange(from as int, r.1 as int))),
{
    let mut i: usize = from;
    let mut n: u32 = 0;
    assert(bytes@.subrange(from as int, from as int) =~= Seq::empty());
    while i < bytes.len() && 0x30 <= bytes[i] && bytes[i] <= 0x39
        invariant
            from <= i <= bytes@.len(),
            run_end(bytes@, i as int) == run_end(bytes@, from as int),
            n == capped(run_value(bytes@.subrange(from as int, i as int))),
        decreases bytes@.len() - i,
    {
        let wide: u64 = n as u64 * 10 + (bytes[i] - 0x30) as u64;
        n = if wide > u32::MAX as u64 {
            u32::MAX
        } else {
            wide as u32
        };
        assert(bytes@.subrange(from as int, i + 1).drop_last() =~= bytes@.subrange(
            from as int,
            i as int,
        ));
        i += 1;
    }
    (n, i)
}

/// One SGR mouse event: button, column, row, press, and how many bytes it takes,
/// for a sequence that starts at `bytes[at]`.
pub fn parse_mouse(bytes: &[u8], at: usize) -> (event: Option<(u32, u32, u32, bool, usize)>)
    requires
        at <= bytes@.len(),
    ensures
        match event {
            Some((btn, x, y, press, len)) => mouse_at(bytes@, at as int) == Some(
                (btn, x, y, press, len as int),
            ) && 0 < len <= bytes@.len() - at,
            None => mouse_at(bytes@, at as int) is None,
        },
{
    if bytes.len() - at < 3 || bytes[at] != 0x1b || bytes[at + 1] != 0x5b || bytes[at + 2] != 0x3c {
        return None;
    }
    let (btn, first) = read_run(bytes, at + 3);
    if first == at + 3 || first >= bytes.len() || bytes[first] != 0x3b {
        return None;
    }
    let (x, second) = read_run(bytes, first + 1);
    if second == first + 1 || second >= bytes.len() || bytes[second] != 0x3b {
        return None;
    }
    let (y, third) = read_run(bytes, second + 1);
    if third == second + 1 || third >= bytes.len() {
        return None;
    }
    if bytes[third] != 0x4d && bytes[third] != 0x6d {
        return None;
    }
    Some((btn, x, y, bytes[third] == 0x4d, third + 1 - at))
}

/// Whether the bytes hold `ESC [ <` anywhere.
pub open spec fn holds_marker(bytes: Seq<u8>) -> bool {
    exists|at: int| marker_at(bytes, at)
}

/// Whether the bytes hold `ESC [ <`, the start of a mouse sequence, anywhere.
pub fn has_mouse_seq(bytes: &[u8]) -> (b: bool)
    ensures
        b == holds_marker(bytes@),
{
    let mut i: usize = 0;
    while i < bytes.len() && bytes.len() - i >= 3
        invariant
            i <= bytes@.len(),
            forall|at: int| marker_at(bytes@, at) ==> at >= i,
        decreases bytes@.len() - i,
    {
        if bytes[i] == 0x1b && bytes[i + 1] == 0x5b && bytes[i + 2] == 0x3c {
            assert(marker_at(bytes@, i as int));
            return true;
        }
        i += 1;
    }
    false
}

// ---------------------------------------------------------------------------
// where it goes

/// How a mouse event is routed while the session is writable.
#[derive(Debug, PartialEq, Eq, Structural)]
pub enum MouseAction {
    /// wheel: sent as a semantic scroll, so that the server decides between the
    /// application and the scrollback
    Scroll { up: bool },
    /// click or drag on a remote full-screen program: the raw sequence is
    /// forwarded
    ForwardRaw,
    /// click or drag at a shell, or not yet classified: dropped
    Drop,
}

/// Whether this is a press of the vertical wheel.
pub open spec fn wheel_press(btn: u32, press: bool) -> bool {
    press && (btn == 64 || btn == 65)
}

/// How a mouse event is routed.
pub open spec fn routed(remote_is_shell: Option<bool>, btn: u32, press: bool) -> MouseAction {
    if wheel_press(btn, press) {
        MouseAction::Scroll { up: btn == 64 }
    } else if btn == 66 || btn == 67 || remote_is_shell != Some(false) {
        MouseAction::Drop
    } else {
        MouseAction::ForwardRaw
    }
}

/// How a mouse event is routed. The wheel scrolls semantically whatever runs in
/// the foreground, the horizontal wheel is dropped, and everything else is
/// forwarded only where a full-screen program is known to run.
pub fn mouse_action(remote_is_shell: Option<bool>, btn: u32, press: bool) -> (a: MouseAction)
    ensures
        a == routed(remote_is_shell, btn, press),
{
    if press && (btn == 64 || btn == 65) {
        MouseAction::Scroll { up: btn == 64 }
    } else if btn == 66 || btn == 67 {
        MouseAction::Drop
    } else {
        match remote_is_shell {
            Some(shell) => if shell {
                MouseAction::Drop
            } else {
                MouseAction::ForwardRaw
            },
            None => MouseAction::Drop,
        }
    }
}

// ---------------------------------------------------------------------------
// a buffer of input

/// A stretch of input: a mouse event with its bytes, or one byte that belongs to
/// none.
pub enum Piece {
    Mouse { btn: u32, x: u32, y: u32, press: bool, raw: Seq<u8> },
    Key(u8),
}

/// The input from `at` on, cut into mouse events and single bytes.
pub open spec fn pieces(bytes: Seq<u8>, at: int) -> Seq<Piece>
    decreases bytes.len() - at,
{
    if at < 0 || at >= bytes.len() {
        Seq::empty()
    } else {
        match mouse_at(bytes, at) {
            Some((btn, x, y, press, len)) => seq![
                Piece::Mouse { btn, x, y, press, raw: bytes.subrange(at, at + len) },
            ] + pieces(bytes, at + len),
            None => seq![Piece::Key(bytes[at])] + pieces(bytes, at + 1),
        }
    }
}

/// Whether the piece is a press of the vertical wheel.
pub open spec fn is_wheel_press(p: Piece) -> bool {
    p matches Piece::Mouse { btn, press, .. } && wheel_press(btn, press)
}

/// Whether some piece of the input is a press of the vertical wheel.
pub open spec fn holds_wheel_press(ps: Seq<Piece>) -> bool {
    exists|i: int| 0 <= i < ps.len() && is_wheel_press(#[trigger] ps[i])
}

/// Whether the input holds a press of the vertical wheel.
pub fn contains_wheel_press(bytes: &[u8]) -> (b: bool)
    ensures
        b == holds_wheel_press(pieces(bytes@, 0)),
{
    let mut i: usize = 0;
    while i < bytes.len()
        invariant
            i <= bytes@.len(),
            holds_wheel_press(pieces(bytes@, 0)) == holds_wheel_press(pieces(bytes@, i as int)),
        decreases bytes@.len() - i,
    {
        let ghost here = pieces(bytes@, i as int);
        match parse_mouse(bytes, i) {
            Some((btn, _x, _y, press, len)) => {
                let ghost rest = pieces(bytes@, i + len);
                if press && (btn == 64 || btn == 65) {
                    assert(is_wheel_press(here[0]));
                    return true;
                }
                proof {
                    assert(here.drop_first() =~= rest);
                    wheel_press_further_on(here);
                }
                i += len;
            },
            None => {
                proof {
                    assert(here.drop_first() =~= pieces(bytes@, i + 1));
                    wheel_press_further_on(here);
                }
                i += 1;
            },
        }
    }
    false
}

proof fn wheel_press_further_on(ps: Seq<Piece>)
    requires
        ps.len() > 0,
        !is_wheel_press(ps[0]),
    ensures
        holds_wheel_press(ps) == holds_wheel_press(ps.drop_first()),
{
    if holds_wheel_press(ps) {
        let i = choose|i: int| 0 <= i < ps.len() && is_wheel_press(#[trigger] ps[i]);
        assert(ps.drop_first()[i - 1] == ps[i]);
    }
    if holds_wheel_press(ps.drop_first()) {
        let i = choose|i: int|
            0 <= i < ps.drop_first().len() && is_wheel_press(#[trigger] ps.drop_first()[i]);
        assert(ps[i + 1] == ps.drop_first()[i]);
    }
}

/// A semantic scroll: which way, and over which column and row of the screen,
/// counted from one as the sequence does.
#[derive(Debug, Clone, Copy, PartialEq, Eq, Structural)]
pub struct Scroll {
    pub up: bool,
    pub x: u32,
    pub y: u32,
}

/// The bytes of a piece that are forwarded as input.
pub open spec fn forwarded_of(p: Piece, remote_is_shell: Option<bool>) -> Seq<u8> {
    match p {
        Piece::Key(b) => seq![b],
        Piece::Mouse { btn, press, raw, .. } => if routed(remote_is_shell, btn, press)
            == MouseAction::ForwardRaw {
            raw
        } else {
            Seq::empty()
        },
    }
}

/// The scroll that a piece turns into, if any.
pub open spec fn scroll_of(p: Piece) -> Seq<Scroll> {
    match p {
        Piece::Mouse { btn, x, y, press, .. } if wheel_press(btn, press) => seq![
            Scroll { up: btn == 64, x, y },
        ],
        _ => Seq::empty(),
    }
}

/// The bytes that are forwarded as input, in order.
pub open spec fn forwarded(ps: Seq<Piece>, remote_is_shell: Option<bool>) -> Seq<u8>
    decreases ps.len(),
{
    if ps.len() == 0 {
        Seq::empty()
    } else {
        forwarded_of(ps[0], remote_is_shell) + forwarded(ps.drop_first(), remote_is_shell)
    }
}

/// The scrolls, in order.
pub open spec fn scrolls(ps: Seq<Piece>) -> Seq<Scroll>
    decreases ps.len(),
{
    if ps.len() == 0 {
        Seq::empty()
    } else {
        scroll_of(ps[0]) + scrolls(ps.drop_first())
    }
}

/// Parts input into the scrolls that its wheel presses ask for and the bytes
/// that are forwarded.
pub fn route_input(bytes: &[u8], remote_is_shell: Option<bool>) -> (r: (Vec<Scroll>, Vec<u8>))
    ensures
        r.0@ == scrolls(pieces(bytes@, 0)),
        r.1@ == forwarded(pieces(bytes@, 0), remote_is_shell),
        r.1@.len() <= bytes@.len(),
{
    let mut found: Vec<Scroll> = Vec::new();
    let mut rest: Vec<u8> = Vec::new();
    let mut i: usize = 0;
    while i < bytes.len()
        invariant
            i <= bytes@.len(),
            rest@.len() <= i,
            found@ + scrolls(pieces(bytes@, i as int)) == scrolls(pieces(bytes@, 0)),
            rest@ + forwarded(pieces(bytes@, i as int), remote_is_shell) == forwarded(
                pieces(bytes@, 0),
                remote_is_shell,
            ),
        decreases bytes@.len() - i,
    {
        let ghost here = pieces(bytes@, i as int);
        match parse_mouse(bytes, i) {
            Some((btn, x, y, press, len)) => {
                assert(here.drop_first() =~= pieces(bytes@, i + len));
                match mouse_action(remote_is_shell, btn, press) {
                    MouseAction::Scroll { up } => {
                        let ghost before = found@;
                        found.push(Scroll { up, x, y });
                        assert(found@ =~= before + scroll_of(here[0]));
                    },
                    MouseAction::ForwardRaw => {
                        let ghost before = rest@;
                        let raw = &bytes[i..i + len];
                        rest.extend_from_slice(raw);
                        assert(rest@ =~= before + forwarded_of(here[0], remote_is_shell));
                    },
                    MouseAction::Drop => {},
                }
                assert(found@ + scrolls(pieces(bytes@, i + len)) =~= scrolls(pieces(bytes@, 0)));
                assert(rest@ + forwarded(pieces(bytes@, i + len), remote_is_shell) =~= forwarded(
                    pieces(bytes@, 0),
                    remote_is_shell,
                ));
                i += len;
            },
            None => {
                assert(here.drop_first() =~= pieces(bytes@, i + 1));
                let ghost before = rest@;
                rest.push(bytes[i]);
                assert(rest@ =~= before + forwarded_of(here[0], remote_is_shell));
                assert(rest@ + forwarded(pieces(bytes@, i + 1), remote_is_shell) =~= forwarded(
                    pieces(bytes@, 0),
                    remote_is_shell,
                ));
                i += 1;
            },
        }
    }
    (found, rest)
}

// ---------------------------------------------------------------------------
// laws

/// The bytes of a piece.
pub open spec fn bytes_of(p: Piece) -> Seq<u8> {
    match p {
        Piece::Key(b) => seq![b],
        Piece::Mouse { raw, .. } => raw,
    }
}

/// The bytes of all pieces, in order.
pub open spec fn put_together(ps: Seq<Piece>) -> Seq<u8>
    decreases ps.len(),
{
    if ps.len() == 0 {
        Seq::empty()
    } else {
        bytes_of(ps[0]) + put_together(ps.drop_first())
    }
}

/// Cutting input into pieces loses no byte, adds none and keeps their order.
pub proof fn pieces_make_up_the_input(bytes: Seq<u8>, at: int)
    requires
        0 <= at <= bytes.len(),
    ensures
        put_together(pieces(bytes, at)) == bytes.skip(at),
    decreases bytes.len() - at,
{
    if at < bytes.len() {
        let ps = pieces(bytes, at);
        match mouse_at(bytes, at) {
            Some((_, _, _, _, len)) => {
                pieces_make_up_the_input(bytes, at + len);
                assert(ps.drop_first() =~= pieces(bytes, at + len));
                assert(bytes.subrange(at, at + len) + bytes.skip(at + len) =~= bytes.skip(at));
            },
            None => {
                pieces_make_up_the_input(bytes, at + 1);
                assert(ps.drop_first() =~= pieces(bytes, at + 1));
                assert(seq![bytes[at]] + bytes.skip(at + 1) =~= bytes.skip(at));
            },
        }
    } else {
        assert(bytes.skip(at) =~= Seq::empty());
    }
}

/// Input without the start of a mouse sequence in it is forwarded as it is, and
/// asks for no scroll.
pub proof fn typing_is_forwarded_verbatim(
    bytes: Seq<u8>,
    at: int,
    remote_is_shell: Option<bool>,
)
    requires
        0 <= at <= bytes.len(),
        !holds_marker(bytes),
    ensures
        forwarded(pieces(bytes, at), remote_is_shell) == bytes.skip(at),
        scrolls(pieces(bytes, at)) == Seq::<Scroll>::empty(),
    decreases bytes.len() - at,
{
    if at < bytes.len() {
        let ps = pieces(bytes, at);
        assert(mouse_at(bytes, at) is None);
        typing_is_forwarded_verbatim(bytes, at + 1, remote_is_shell);
        assert(ps.drop_first() =~= pieces(bytes, at + 1));
        assert(seq![bytes[at]] + bytes.skip(at + 1) =~= bytes.skip(at));
        assert(scroll_of(ps[0]) + scrolls(ps.drop_first()) =~= Seq::empty());
    } else {
        assert(bytes.skip(at) =~= Seq::empty());
    }
}

/// Input with a wheel press in it holds the start of a mouse sequence.
pub proof fn wheel_presses_are_mouse_input(bytes: Seq<u8>, at: int)
    requires
        0 <= at <= bytes.len(),
        holds_wheel_press(pieces(bytes, at)),
    ensures
        holds_marker(bytes),
    decreases bytes.len() - at,
{
    if at < bytes.len() {
        let ps = pieces(bytes, at);
        match mouse_at(bytes, at) {
            Some(_) => {
                assert(marker_at(bytes, at));
            },
            None => {
                assert(ps.drop_first() =~= pieces(bytes, at + 1));
                wheel_press_further_on(ps);
                wheel_presses_are_mouse_input(bytes, at + 1);
            },
        }
    }
}

/// The single bytes among the pieces, in order.
pub open spec fn keys(ps: Seq<Piece>) -> Seq<u8>
    decreases ps.len(),
{
    if ps.len() == 0 {
        Seq::empty()
    } else {
        (match ps[0] {
            Piece::Key(b) => seq![b],
            Piece::Mouse { .. } => Seq::empty(),
        }) + keys(ps.drop_first())
    }
}

/// Where no full-screen program is known to run, what is forwarded are the bytes
/// outside mouse sequences, all of them and nothing else: no click leaves
/// garbage at a prompt.
pub proof fn a_shell_gets_keys_only(ps: Seq<Piece>, remote_is_shell: Option<bool>)
    requires
        remote_is_shell != Some(false),
    ensures
        forwarded(ps, remote_is_shell) == keys(ps),
    decreases ps.len(),
{
    if ps.len() > 0 {
        a_shell_gets_keys_only(ps.drop_first(), remote_is_shell);
    }
}

/// A wheel press scrolls, and is never forwarded raw, whatever runs in the
/// foreground.
pub proof fn the_wheel_always_scrolls(p: Piece, remote_is_shell: Option<bool>)
    requires
        is_wheel_press(p),
    ensures
        forwarded_of(p, remote_is_shell) == Seq::<u8>::empty(),
        scroll_of(p).len() == 1,
{
}

/// `n` in decimal, as bytes.
pub open spec fn decimal_bytes(n: nat) -> Seq<u8>
    decreases n,
{
    if n < 10 {
        seq![(0x30 + n) as u8]
    } else {
        decimal_bytes(n / 10).push((0x30 + n % 10) as u8)
    }
}

/// The sequence that a terminal sends for a mouse event.
pub open spec fn mouse_sequence(btn: u32, x: u32, y: u32, press: bool) -> Seq<u8> {
    seq![0x1bu8, 0x5bu8, 0x3cu8] + decimal_bytes(btn as nat) + seq![0x3bu8] + decimal_bytes(
        x as nat,
    ) + seq![0x3bu8] + decimal_bytes(y as nat) + seq![
        if press {
            0x4du8
        } else {
            0x6du8
        },
    ]
}

proof fn decimal_bytes_are_a_run(n: nat)
    ensures
        decimal_bytes(n).len() > 0,
        forall|i: int| 0 <= i < decimal_bytes(n).len() ==> is_digit_byte(#[trigger] decimal_bytes(n)[i]),
        run_value(decimal_bytes(n)) == n,
    decreases n,
{
    if n < 10 {
        assert(decimal_bytes(n).drop_last() =~= Seq::empty());
        assert(run_value(Seq::<u8>::empty()) == 0);
    } else {
        decimal_bytes_are_a_run(n / 10);
        assert(decimal_bytes(n).drop_last() =~= decimal_bytes(n / 10));
    }
}

proof fn run_ends_at(bytes: Seq<u8>, i: int, end: int)
    requires
        0 <= i <= end < bytes.len(),
        forall|j: int| i <= j < end ==> is_digit_byte(#[trigger] bytes[j]),
        !is_digit_byte(bytes[end]),
    ensures
        run_end(bytes, i) == end,
    decreases end - i,
{
    if i < end {
        run_ends_at(bytes, i + 1, end);
    }
}

/// A row of digits between a prefix and a byte that is none is found whole.
proof fn run_between(prefix: Seq<u8>, digits: Seq<u8>, stop: u8, suffix: Seq<u8>)
    requires
        forall|i: int| 0 <= i < digits.len() ==> is_digit_byte(#[trigger] digits[i]),
        !is_digit_byte(stop),
    ensures
        ({
            let all = prefix + digits + seq![stop] + suffix;
            let from = prefix.len() as int;
            let end = from + digits.len();
            &&& run_end(all, from) == end
            &&& all.subrange(from, end) == digits
            &&& byte_at(all, end, stop)
        }),
{
    let all = prefix + digits + seq![stop] + suffix;
    let from = prefix.len() as int;
    let end = from + digits.len();
    assert(all.subrange(from, end) =~= digits);
    assert forall|j: int| from <= j < end implies is_digit_byte(#[trigger] all[j]) by {
        assert(all[j] == digits[j - from]);
    }
    run_ends_at(all, from, end);
}

/// The sequence of a mouse event is read as this event, wherever it stands in
/// the input and whatever follows it.
#[verifier::rlimit(30)]
pub proof fn sent_events_are_read_back(
    before: Seq<u8>,
    btn: u32,
    x: u32,
    y: u32,
    press: bool,
    after: Seq<u8>,
)
    ensures
        mouse_at(before + mouse_sequence(btn, x, y, press) + after, before.len() as int) == Some(
            (btn, x, y, press, mouse_sequence(btn, x, y, press).len() as int),
        ),
{
    let all = before + mouse_sequence(btn, x, y, press) + after;
    let (b, c, r) = (decimal_bytes(btn as nat), decimal_bytes(x as nat), decimal_bytes(y as nat));
    decimal_bytes_are_a_run(btn as nat);
    decimal_bytes_are_a_run(x as nat);
    decimal_bytes_are_a_run(y as nat);
    let last = if press {
        0x4du8
    } else {
        0x6du8
    };
    let at = before.len() as int;
    let start = before + seq![0x1bu8, 0x5bu8, 0x3cu8];
    let to_column = start + b + seq![0x3bu8];
    let to_row = to_column + c + seq![0x3bu8];
    let from_last = seq![last] + after;
    let from_row = seq![0x3bu8] + r + from_last;
    assert(all =~= to_row + r + seq![last] + after);
    assert(all =~= to_column + c + seq![0x3bu8] + (r + from_last));
    assert(all =~= start + b + seq![0x3bu8] + (c + from_row));
    run_between(start, b, 0x3b, c + from_row);
    run_between(to_column, c, 0x3b, r + from_last);
    run_between(to_row, r, last, after);
    assert(marker_at(all, at)) by {
        assert(all[at] == start[at] && all[at + 1] == start[at + 1] && all[at + 2] == start[at + 2]);
    }
    assert(to_column.len() == start.len() + b.len() + 1);
    assert(to_row.len() == to_column.len() + c.len() + 1);
}

// ---------------------------------------------------------------------------
// what input is taken for

/// A press of button 64 or 65 scrolls, up or down. Every other event is raw
/// input for a full-screen program, where one is known to run: every button,
/// pressed, dragged or released, but for the sideways wheel, buttons 66 and 67.
/// At a shell, or where nothing is known, it is dropped.
pub proof fn events_are_routed(remote_is_shell: Option<bool>, btn: u32, press: bool)
    ensures
        ({
            let to = routed(remote_is_shell, btn, press);
            let wheel = press && (btn == 64 || btn == 65);
            &&& press && btn == 64 ==> to == MouseAction::Scroll { up: true }
            &&& press && btn == 65 ==> to == MouseAction::Scroll { up: false }
            &&& !wheel && btn != 66 && btn != 67 && remote_is_shell == Some(false) ==> to
                == MouseAction::ForwardRaw
            &&& btn == 66 || btn == 67 ==> to == MouseAction::Drop
            &&& !wheel && remote_is_shell != Some(false) ==> to == MouseAction::Drop
        }),
{
}

/// What becomes of a mouse event: where a full-screen program is known to run,
/// its raw bytes are forwarded, all of them, for every button but the wheel's;
/// a wheel press becomes one scroll at its place; nothing else comes of it.
pub proof fn mouse_events_are_used(
    btn: u32,
    x: u32,
    y: u32,
    press: bool,
    raw: Seq<u8>,
    remote_is_shell: Option<bool>,
)
    ensures
        ({
            let p = Piece::Mouse { btn, x, y, press, raw };
            let wheel = press && (btn == 64 || btn == 65);
            let goes_raw = remote_is_shell == Some(false) && !wheel && btn != 66 && btn != 67;
            &&& goes_raw ==> forwarded_of(p, remote_is_shell) == raw
            &&& !goes_raw ==> forwarded_of(p, remote_is_shell).len() == 0
            &&& wheel ==> scroll_of(p) == seq![Scroll { up: btn == 64, x, y }]
            &&& !wheel ==> scroll_of(p).len() == 0
            &&& is_wheel_press(p) <==> wheel
        }),
{
    events_are_routed(remote_is_shell, btn, press);
}

/// A byte outside mouse sequences is always forwarded, as itself, and is no
/// scroll.
pub proof fn keys_are_forwarded(b: u8, remote_is_shell: Option<bool>)
    ensures
        forwarded_of(Piece::Key(b), remote_is_shell) == seq![b],
        scroll_of(Piece::Key(b)).len() == 0,
        !is_wheel_press(Piece::Key(b)),
{
}

/// Pieces are used in turn, each by itself: nothing comes of two pieces that does
/// not come of one of them, and their order is kept.
pub proof fn pieces_are_used_in_turn(a: Seq<Piece>, b: Seq<Piece>, remote_is_shell: Option<bool>)
    ensures
        forwarded(a + b, remote_is_shell) == forwarded(a, remote_is_shell) + forwarded(
            b,
            remote_is_shell,
        ),
        scrolls(a + b) == scrolls(a) + scrolls(b),
    decreases a.len(),
{
    if a.len() == 0 {
        assert(a + b =~= b);
        assert(forwarded(a, remote_is_shell) + forwarded(b, remote_is_shell) =~= forwarded(
            b,
            remote_is_shell,
        ));
        assert(scrolls(a) + scrolls(b) =~= scrolls(b));
    } else {
        assert((a + b).drop_first() =~= a.drop_first() + b);
        pieces_are_used_in_turn(a.drop_first(), b, remote_is_shell);
        assert(forwarded(a + b, remote_is_shell) =~= forwarded(a, remote_is_shell) + forwarded(
            b,
            remote_is_shell,
        ));
        assert(scrolls(a + b) =~= scrolls(a) + scrolls(b));
    }
}

/// A piece alone is used as what it is.
pub proof fn a_piece_is_used_for_what_it_is(p: Piece, remote_is_shell: Option<bool>)
    ensures
        forwarded(seq![p], remote_is_shell) == forwarded_of(p, remote_is_shell),
        scrolls(seq![p]) == scroll_of(p),
{
    assert(seq![p].drop_first() =~= Seq::empty());
    assert(forwarded(Seq::empty(), remote_is_shell) =~= Seq::empty());
    assert(scrolls(Seq::empty()) =~= Seq::empty());
    assert(forwarded(seq![p], remote_is_shell) =~= forwarded_of(p, remote_is_shell));
    assert(scrolls(seq![p]) =~= scroll_of(p));
}

/// Input holds a wheel press exactly where a scroll comes of it.
pub proof fn a_wheel_press_is_a_scroll(ps: Seq<Piece>)
    ensures
        holds_wheel_press(ps) <==> scrolls(ps).len() > 0,
    decreases ps.len(),
{
    if ps.len() > 0 {
        a_wheel_press_is_a_scroll(ps.drop_first());
        if is_wheel_press(ps[0]) {
            assert(scroll_of(ps[0]).len() == 1);
        } else {
            assert(scroll_of(ps[0]).len() == 0);
            wheel_press_further_on(ps);
        }
    }
}

/// Where a mouse event stands it is one piece with all of its bytes, and reading
/// goes on behind it; any other byte is a piece of its own, and reading goes on
/// at the next one.
pub proof fn input_is_read_piece_by_piece(bytes: Seq<u8>, at: int)
    requires
        0 <= at < bytes.len(),
    ensures
        ({
            let ps = pieces(bytes, at);
            &&& ps.len() > 0
            &&& mouse_at(bytes, at) is None ==> ps[0] == Piece::Key(bytes[at]) && ps.drop_first()
                == pieces(bytes, at + 1)
            &&& mouse_at(bytes, at) matches Some((btn, x, y, press, len)) ==> ps[0]
                == (Piece::Mouse { btn, x, y, press, raw: bytes.subrange(at, at + len) })
                && ps.drop_first() == pieces(bytes, at + len)
        }),
{
    let ps = pieces(bytes, at);
    match mouse_at(bytes, at) {
        Some((_, _, _, _, len)) => {
            assert(ps.drop_first() =~= pieces(bytes, at + len));
        },
        None => {
            assert(ps.drop_first() =~= pieces(bytes, at + 1));
        },
    }
}

/// A row of digits is read in decimal, digit by digit; what does not fit into 32
/// bits counts as the largest number that does.
pub proof fn digits_are_read_in_decimal(digits: Seq<u8>, d: u8)
    requires
        is_digit_byte(d),
    ensures
        run_value(Seq::empty()) == 0,
        run_value(digits.push(d)) == run_value(digits) * 10 + (d - 0x30),
        capped(run_value(digits)) == (if run_value(digits) <= 0xffff_ffff {
            run_value(digits)
        } else {
            0xffff_ffff
        }),
{
    assert(digits.push(d).drop_last() =~= digits);
}

/// The bytes of a mouse event with these rows of digits.
pub open spec fn mouse_form(b: Seq<u8>, c: Seq<u8>, r: Seq<u8>, press: bool) -> Seq<u8> {
    seq![0x1bu8, 0x5bu8, 0x3cu8] + b + seq![0x3bu8] + c + seq![0x3bu8] + r + seq![
        if press {
            0x4du8
        } else {
            0x6du8
        },
    ]
}

/// Whether these are digits, at least one.
pub open spec fn is_run(digits: Seq<u8>) -> bool {
    digits.len() > 0 && forall|i: int|
        0 <= i < digits.len() ==> is_digit_byte(#[trigger] digits[i])
}

/// Any three rows of digits in the form of a mouse event are read as one, however
/// long they are, wherever it stands and whatever follows it.
#[verifier::rlimit(30)]
pub proof fn written_events_are_read(
    before: Seq<u8>,
    b: Seq<u8>,
    c: Seq<u8>,
    r: Seq<u8>,
    press: bool,
    after: Seq<u8>,
)
    requires
        is_run(b),
        is_run(c),
        is_run(r),
    ensures
        mouse_at(before + mouse_form(b, c, r, press) + after, before.len() as int) == Some(
            (
                capped(run_value(b)),
                capped(run_value(c)),
                capped(run_value(r)),
                press,
                mouse_form(b, c, r, press).len() as int,
            ),
        ),
{
    let all = before + mouse_form(b, c, r, press) + after;
    let last = if press {
        0x4du8
    } else {
        0x6du8
    };
    let at = before.len() as int;
    let start = before + seq![0x1bu8, 0x5bu8, 0x3cu8];
    let to_column = start + b + seq![0x3bu8];
    let to_row = to_column + c + seq![0x3bu8];
    let from_last = seq![last] + after;
    let from_row = seq![0x3bu8] + r + from_last;
    assert(all =~= to_row + r + seq![last] + after);
    assert(all =~= to_column + c + seq![0x3bu8] + (r + from_last));
    assert(all =~= start + b + seq![0x3bu8] + (c + from_row));
    run_between(start, b, 0x3b, c + from_row);
    run_between(to_column, c, 0x3b, r + from_last);
    run_between(to_row, r, last, after);
    assert(marker_at(all, at)) by {
        assert(all[at] == start[at] && all[at + 1] == start[at + 1] && all[at + 2] == start[at + 2]);
    }
    assert(to_column.len() == start.len() + b.len() + 1);
    assert(to_row.len() == to_column.len() + c.len() + 1);
}

proof fn run_holds_digits(bytes: Seq<u8>, i: int)
    requires
        0 <= i,
    ensures
        i <= run_end(bytes, i),
        i <= bytes.len() ==> run_end(bytes, i) <= bytes.len(),
        forall|j: int| i <= j < run_end(bytes, i) ==> is_digit_byte(#[trigger] bytes[j]),
    decreases bytes.len() - i,
{
    if i < bytes.len() && is_digit_byte(bytes[i]) {
        run_holds_digits(bytes, i + 1);
    }
}

/// Nothing but such a form is read as a mouse event: the bytes of an event are
/// three rows of digits in it, which give the event's button and place.
pub proof fn events_have_their_form(bytes: Seq<u8>, at: int)
    requires
        0 <= at <= bytes.len(),
        mouse_at(bytes, at) is Some,
    ensures
        ({
            let (btn, x, y, press, len) = mouse_at(bytes, at)->0;
            &&& 0 < len <= bytes.len() - at
            &&& exists|b: Seq<u8>, c: Seq<u8>, r: Seq<u8>|
                {
                    &&& is_run(b) && is_run(c) && is_run(r)
                    &&& bytes.subrange(at, at + len) == #[trigger] mouse_form(b, c, r, press)
                    &&& btn == capped(run_value(b)) && x == capped(run_value(c)) && y == capped(
                        run_value(r),
                    )
                }
        }),
{
    let (btn, x, y, press, len) = mouse_at(bytes, at)->0;
    let first = run_end(bytes, at + 3);
    let second = run_end(bytes, first + 1);
    let third = run_end(bytes, second + 1);
    run_holds_digits(bytes, at + 3);
    run_holds_digits(bytes, first + 1);
    run_holds_digits(bytes, second + 1);
    let b = bytes.subrange(at + 3, first);
    let c = bytes.subrange(first + 1, second);
    let r = bytes.subrange(second + 1, third);
    assert(is_run(b) && is_run(c) && is_run(r));
    assert(bytes.subrange(at, at + len) =~= mouse_form(b, c, r, press));
}

/// Input is mouse input exactly where escape, bracket and less-than stand in it
/// one after the other.
pub proof fn mouse_input_has_its_mark(before: Seq<u8>, after: Seq<u8>, bytes: Seq<u8>)
    ensures
        holds_marker(before + seq![0x1bu8, 0x5bu8, 0x3cu8] + after),
        holds_marker(bytes) ==> exists|at: int|
            0 <= at <= bytes.len() - 3 && #[trigger] bytes.subrange(at, at + 3)
                == seq![0x1bu8, 0x5bu8, 0x3cu8],
{
    let all = before + seq![0x1bu8, 0x5bu8, 0x3cu8] + after;
    assert(marker_at(all, before.len() as int));
    if holds_marker(bytes) {
        let at = choose|at: int| marker_at(bytes, at);
        assert(bytes.subrange(at, at + 3) =~= seq![0x1bu8, 0x5bu8, 0x3cu8]);
    }
}

} // verus!
