//! Watching or typing, and which of the two a pane opens with.

use vstd::prelude::*;

verus! {

/// What a session with the remote terminal is for.
#[derive(Debug, Clone, Copy, PartialEq, Eq, Structural)]
pub enum Mode {
    /// read-only: the remote terminal is shown and never resized
    Observe,
    /// writable: input is forwarded and the remote takes the local size
    Control,
}

impl Mode {
    /// The mode's name on the remote command line.
    pub open spec fn name(self) -> Seq<char> {
        match self {
            Mode::Observe => "observe"@,
            Mode::Control => "control"@,
        }
    }

    /// The mode's name on the remote command line.
    pub fn as_str(self) -> (s: &'static str)
        ensures
            s@ == self.name(),
    {
        match self {
            Mode::Observe => "observe",
            Mode::Control => "control",
        }
    }
}

/// The columns of the layout that a server renders while no client is attached.
pub const NO_CLIENT_COLS: usize = 80;

/// The rows of that layout.
pub const NO_CLIENT_ROWS: usize = 24;

/// Whether a pane of this size fits into the layout that nobody is watching.
/// Everything that the layout is cut into only takes away from it, so a pane
/// that was born under it is no larger on either axis.
pub open spec fn may_be_placeholder(size: (usize, usize)) -> bool {
    size.0 <= NO_CLIENT_COLS && size.1 <= NO_CLIENT_ROWS
}

/// Whether a pane of this size is certainly a real viewport.
///
/// Strictly larger on either axis is: panes are restored at exactly the size of
/// the placeholder, so that size itself proves nothing.
pub fn size_is_trusted(size: (usize, usize)) -> (trusted: bool)
    ensures
        trusted == !may_be_placeholder(size),
{
    size.0 > NO_CLIENT_COLS || size.1 > NO_CLIENT_ROWS
}

/// The mode to open with.
pub open spec fn opening_mode(always_control: bool, size: (usize, usize)) -> Mode {
    if always_control && !may_be_placeholder(size) {
        Mode::Control
    } else {
        Mode::Observe
    }
}

/// The mode to open with: writable only where that is asked for and the size
/// vouches for itself, because a writable session resizes the remote.
pub fn initial_mode(always_control: bool, size: (usize, usize)) -> (m: Mode)
    ensures
        m == opening_mode(always_control, size),
{
    if always_control && size_is_trusted(size) {
        Mode::Control
    } else {
        Mode::Observe
    }
}

/// The size of a terminal of which the kernel says this.
pub open spec fn size_from(winsize: Option<(u16, u16)>) -> (usize, usize) {
    match winsize {
        Some((cols, rows)) if cols > 0 && rows > 0 => (cols as usize, rows as usize),
        _ => (NO_CLIENT_COLS, NO_CLIENT_ROWS),
    }
}

/// The size of the local terminal, from what the kernel says of it. A terminal
/// that cannot be asked, or has an empty axis, counts as the placeholder.
pub fn known_size(winsize: Option<(u16, u16)>) -> (size: (usize, usize))
    ensures
        size == size_from(winsize),
{
    match winsize {
        Some((cols, rows)) => if cols > 0 && rows > 0 {
            (cols as usize, rows as usize)
        } else {
            (NO_CLIENT_COLS, NO_CLIENT_ROWS)
        },
        None => (NO_CLIENT_COLS, NO_CLIENT_ROWS),
    }
}

/// A larger pane is trusted wherever a smaller one is: growing on either axis
/// never takes trust away.
pub proof fn trust_grows_with_the_pane(small: (usize, usize), large: (usize, usize))
    requires
        small.0 <= large.0,
        small.1 <= large.1,
        !may_be_placeholder(small),
    ensures
        !may_be_placeholder(large),
{
}

/// A pane opens writable only where it was asked to and its size cannot have
/// come from the placeholder layout; in particular a terminal whose size is not
/// known never opens writable.
pub proof fn unknown_size_opens_read_only(always_control: bool)
    ensures
        opening_mode(always_control, (NO_CLIENT_COLS, NO_CLIENT_ROWS)) == Mode::Observe,
{
}

/// A size vouches for itself exactly where it is above 80 columns or above 24
/// rows, and a pane opens writable exactly where that is asked for and its size
/// does.
pub proof fn control_opens_in_a_viewport_only(always_control: bool, size: (usize, usize))
    ensures
        !may_be_placeholder(size) <==> size.0 > 80 || size.1 > 24,
        opening_mode(always_control, size) == Mode::Control <==> always_control && (size.0 > 80
            || size.1 > 24),
{
}

/// A size that the kernel gives is believed where neither axis is empty; any
/// other terminal counts as the placeholder of 80 by 24.
pub proof fn a_real_size_is_believed(cols: u16, rows: u16)
    ensures
        cols > 0 && rows > 0 ==> size_from(Some((cols, rows))) == (cols as usize, rows as usize),
        cols == 0 || rows == 0 ==> size_from(Some((cols, rows))) == (80usize, 24usize),
        size_from(None) == (80usize, 24usize),
{
}

/// The modes go by these names.
pub proof fn modes_have_their_names(m: Mode)
    ensures
        m == Mode::Observe ==> m.name() == "observe"@,
        m == Mode::Control ==> m.name() == "control"@,
{
}

} // verus!
