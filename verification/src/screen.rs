//! What is put on the screen, or printed instead of it.

use vstd::prelude::*;

use crate::text::{
    chars_of, decimal, decimal_text, holds_text, join2, join3, last_place, number_of, stands_at,
    string_of, texts, written_numbers_are_read_back,
};

verus! {

/// Whether `part` stands in `s` at `at` and nowhere after it.
pub open spec fn stands_last_at(s: Seq<char>, part: Seq<char>, at: int) -> bool {
    stands_at(s, part, at) && forall|q: int| stands_at(s, part, q) ==> q <= at
}

/// What ends a synchronized update of the terminal.
pub open spec fn sync_end() -> Seq<char> {
    "\x1b[?2026l"@
}

/// `drawn` with `overlay` in it: right before the end of the last synchronized
/// update, so that both show at once, or behind everything where there is none.
pub open spec fn is_overlaid(drawn: Seq<char>, overlay: Seq<char>, all: Seq<char>) -> bool {
    if holds_text(drawn, sync_end()) {
        exists|at: int|
            stands_last_at(drawn, sync_end(), at) && all == drawn.take(at) + overlay + drawn.skip(at)
    } else {
        all == drawn + overlay
    }
}

/// Puts an overlay into what is drawn.
pub fn with_overlay(drawn: &str, overlay: &str) -> (all: String)
    ensures
        is_overlaid(drawn@, overlay@, all@),
{
    match last_place(drawn, "\x1b[?2026l") {
        Some(at) => {
            let chars = chars_of(drawn);
            let before = string_of(chars.as_slice(), 0, at);
            let after = string_of(chars.as_slice(), at, chars.len());
            assert(before@ =~= drawn@.take(at as int));
            assert(after@ =~= drawn@.skip(at as int));
            assert(stands_last_at(drawn@, sync_end(), at as int));
            join3(before.as_str(), overlay, after.as_str())
        },
        None => join2(drawn, overlay),
    }
}

/// An optional number, as it is printed.
pub open spec fn number_shown(n: Option<u64>) -> Seq<char> {
    match n {
        Some(v) => "Some("@ + decimal(v as nat) + ")"@,
        None => "None"@,
    }
}

/// An optional flag, as it is printed.
pub open spec fn flag_shown(b: Option<bool>) -> Seq<char> {
    match b {
        Some(true) => "Some(true)"@,
        Some(false) => "Some(false)"@,
        None => "None"@,
    }
}

/// The lines that are not empty, with newlines between them.
pub open spec fn filled_lines(rows: Seq<Seq<char>>) -> Seq<char>
    decreases rows.len(),
{
    if rows.len() == 0 {
        Seq::empty()
    } else {
        let before = filled_lines(rows.drop_last());
        if rows.last().len() == 0 {
            before
        } else if before.len() == 0 {
            rows.last()
        } else {
            before + "\n"@ + rows.last()
        }
    }
}

/// What is printed for a frame: its numbers, then the screen as text.
pub open spec fn frame_report(
    seq: Option<u64>,
    full: Option<bool>,
    width: nat,
    height: nat,
    rows: Seq<Seq<char>>,
) -> Seq<char> {
    "--- frame seq="@ + number_shown(seq) + " full="@ + flag_shown(full) + " "@ + decimal(width)
        + "x"@ + decimal(height) + " ---\n"@ + filled_lines(rows)
}

/// What is printed for a frame.
pub fn dump_text(
    seq: Option<u64>,
    full: Option<bool>,
    width: usize,
    height: usize,
    rows: &Vec<String>,
) -> (s: String)
    ensures
        s@ == frame_report(seq, full, width as nat, height as nat, texts(rows@)),
{
    let number = match seq {
        Some(n) => {
            let digits = decimal_text(n);
            join3("Some(", digits.as_str(), ")")
        },
        None => "None".to_owned(),
    };
    let flag = match full {
        Some(b) => if b {
            "Some(true)"
        } else {
            "Some(false)"
        },
        None => "None",
    };
    let mut body = String::new();
    let ghost listed = texts(rows@);
    let mut i: usize = 0;
    assert(listed.take(0) =~= Seq::empty());
    assert(body@ =~= filled_lines(listed.take(0)));
    while i < rows.len()
        invariant
            i <= rows@.len(),
            listed == texts(rows@),
            body@ == filled_lines(listed.take(i as int)),
        decreases rows@.len() - i,
    {
        assert(listed.take(i + 1).drop_last() =~= listed.take(i as int));
        assert(listed.take(i + 1).last() == rows@[i as int]@);
        if !rows[i].as_str().is_empty() {
            if !body.as_str().is_empty() {
                body.append("\n");
            }
            body.append(rows[i].as_str());
            assert(body@ =~= filled_lines(listed.take(i + 1)));
        }
        i += 1;
    }
    assert(listed.take(i as int) =~= listed);
    let across = decimal_text(width as u64);
    let down = decimal_text(height as u64);
    let mut s = join3("--- frame seq=", number.as_str(), " full=");
    s.append(flag);
    s.append(" ");
    s.append(across.as_str());
    s.append("x");
    s.append(down.as_str());
    s.append(" ---\n");
    s.append(body.as_str());
    s
}

/// A screen update that ends with the end of a synchronized update still does
/// with an overlay in it, and without the overlay it is what it was.
pub proof fn an_overlay_joins_the_update(drawn: Seq<char>, overlay: Seq<char>, all: Seq<char>)
    requires
        is_overlaid(drawn, overlay, all),
        stands_at(drawn, sync_end(), drawn.len() - sync_end().len()),
    ensures
        stands_at(all, sync_end(), all.len() - sync_end().len()),
        all == drawn.take(drawn.len() - sync_end().len()) + overlay + sync_end(),
{
    let end = drawn.len() - sync_end().len();
    assert(holds_text(drawn, sync_end()));
    let at = choose|at: int|
        stands_last_at(drawn, sync_end(), at) && all == drawn.take(at) + overlay + drawn.skip(at);
    assert(at == end);
    assert(drawn.skip(end) =~= sync_end());
    assert(all.subrange(all.len() - sync_end().len(), all.len() as int) =~= sync_end());
}

/// Where a synchronized update ends, and none ends after it, the overlay stands
/// right before that end; where none ends, it stands behind everything.
/// Everything that was drawn stays, in its order.
pub proof fn the_overlay_has_its_place(
    before: Seq<char>,
    behind: Seq<char>,
    overlay: Seq<char>,
    all: Seq<char>,
)
    requires
        is_overlaid(before + "\x1b[?2026l"@ + behind, overlay, all),
        forall|q: int|
            stands_at(before + "\x1b[?2026l"@ + behind, "\x1b[?2026l"@, q) ==> q <= before.len(),
    ensures
        all == before + overlay + "\x1b[?2026l"@ + behind,
{
    let end = "\x1b[?2026l"@;
    let drawn = before + end + behind;
    let n = before.len() as int;
    assert(drawn.subrange(n, n + end.len()) =~= end);
    assert(stands_at(drawn, end, n));
    let at = choose|at: int|
        stands_last_at(drawn, sync_end(), at) && all == drawn.take(at) + overlay + drawn.skip(at);
    assert(at == n);
    assert(drawn.take(n) =~= before);
    assert(drawn.skip(n) =~= end + behind);
    assert(all =~= before + overlay + end + behind);
}

/// Where nothing ends a synchronized update, the overlay stands behind
/// everything.
pub proof fn the_overlay_comes_last_otherwise(
    drawn: Seq<char>,
    overlay: Seq<char>,
    all: Seq<char>,
)
    requires
        is_overlaid(drawn, overlay, all),
        forall|q: int| !stands_at(drawn, "\x1b[?2026l"@, q),
    ensures
        all == drawn + overlay,
{
}

/// The text of a dump, from the texts of its numbers and its screen.
pub open spec fn dumped(
    seq: Seq<char>,
    full: Seq<char>,
    width: Seq<char>,
    height: Seq<char>,
    screen: Seq<char>,
) -> Seq<char> {
    "--- frame seq="@ + seq + " full="@ + full + " "@ + width + "x"@ + height + " ---\n"@ + screen
}

/// A dump gives the frame's number and flag where it has them, then its width and
/// height, each as a number that reads back, then the screen.
pub proof fn a_dump_says_what_was_shown(
    seq: Option<u64>,
    full: Option<bool>,
    width: nat,
    height: nat,
    rows: Seq<Seq<char>>,
)
    ensures
        exists|n: Seq<char>, f: Seq<char>, w: Seq<char>, h: Seq<char>|
            {
                &&& frame_report(seq, full, width, height, rows) == #[trigger] dumped(
                    n,
                    f,
                    w,
                    h,
                    filled_lines(rows),
                )
                &&& seq is None ==> n == "None"@
                &&& seq is Some ==> exists|d: Seq<char>|
                    number_of(d, u64::MAX as nat) == Some(seq->0 as nat) && n == "Some("@
                        + #[trigger] (d + ")"@)
                &&& full is None ==> f == "None"@
                &&& full == Some(true) ==> f == "Some(true)"@
                &&& full == Some(false) ==> f == "Some(false)"@
                &&& number_of(w, width) == Some(width)
                &&& number_of(h, height) == Some(height)
            },
{
    let n = number_shown(seq);
    let f = flag_shown(full);
    let w = decimal(width);
    let h = decimal(height);
    written_numbers_are_read_back(width, width);
    written_numbers_are_read_back(height, height);
    if seq is Some {
        let d = decimal(seq->0 as nat);
        written_numbers_are_read_back(seq->0 as nat, u64::MAX as nat);
        assert(n =~= "Some("@ + (d + ")"@));
    }
    assert(frame_report(seq, full, width, height, rows) =~= dumped(
        n,
        f,
        w,
        h,
        filled_lines(rows),
    ));
}

/// Rows are printed in turn, each as it is: a row alone is itself, empty ones
/// leave no trace, and between two parts that print something stands one newline.
pub proof fn rows_are_printed_in_turn(a: Seq<Seq<char>>, b: Seq<Seq<char>>)
    ensures
        filled_lines(a).len() == 0 ==> filled_lines(a + b) == filled_lines(b),
        filled_lines(b).len() == 0 ==> filled_lines(a + b) == filled_lines(a),
        filled_lines(a).len() > 0 && filled_lines(b).len() > 0 ==> filled_lines(a + b)
            == filled_lines(a) + "\n"@ + filled_lines(b),
        a.len() == 1 ==> filled_lines(a) == a[0],
    decreases b.len(),
{
    if a.len() == 1 {
        assert(a.drop_last() =~= Seq::empty());
        assert(filled_lines(a.drop_last()).len() == 0);
        if a[0].len() == 0 {
            assert(a[0] =~= Seq::empty());
        }
    }
    if b.len() == 0 {
        assert(a + b =~= a);
        if filled_lines(a).len() == 0 {
            assert(filled_lines(a) =~= filled_lines(b));
        }
    } else {
        assert((a + b).drop_last() =~= a + b.drop_last());
        rows_are_printed_in_turn(a, b.drop_last());
        let r = b.last();
        let x = filled_lines(a);
        let y = filled_lines(b.drop_last());
        assert(x + "\n"@ + (y + "\n"@ + r) =~= x + "\n"@ + y + "\n"@ + r);
        reveal_strlit("\n");
    }
}

} // verus!
