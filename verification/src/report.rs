//! The lines of the closing report: labelled values, sizes with grouped
//! digits, and centring in a fixed width.

use num_format::{Locale, ToFormattedString};
use vstd::prelude::*;
use vstd::string::{StrSliceExecFns, StringExecFns};

verus! {

/// Width, in characters, in which the lines of the report are centred.
pub const REPORT_WIDTH: usize = 50;

/// The digits of `n` as the French locale table of `num_format` groups them.
pub uninterp spec fn french_grouping(n: nat) -> Seq<char>;

/// Calls `num_format::ToFormattedString::to_formatted_string` on `n` with
/// `num_format::Locale::fr`.
///
/// Trusted: the text depends on `n` alone, since the locale is a table that
/// is compiled into `num_format`. Nothing is claimed of what the text holds.
#[verifier::external_body]
fn group_digits(n: usize) -> (text: String)
    ensures
        text@ == french_grouping(n as nat),
{
    n.to_formatted_string(&Locale::fr)
}

/// A label and its value, separated by a colon and a space.
pub open spec fn labelled_text(label: Seq<char>, value: Seq<char>) -> Seq<char> {
    label + seq![':', ' '] + value
}

/// `count` spaces.
pub open spec fn spaces(count: nat) -> Seq<char> {
    Seq::new(count, |i: int| ' ')
}

/// `text` with spaces on both sides up to `width` characters. Of an odd
/// number of spaces the right side gets one more than the left. A text of
/// `width` characters or more stays as it is.
pub open spec fn centred_text(text: Seq<char>, width: nat) -> Seq<char> {
    if text.len() >= width {
        text
    } else {
        let padding = (width - text.len()) as nat;
        spaces(padding / 2) + text + spaces((padding - padding / 2) as nat)
    }
}

/// Writes `label: value`.
pub fn labelled(label: &str, value: &str) -> (line: String)
    ensures
        line@ == labelled_text(label@, value@),
{
    proof {
        reveal_strlit(": ");
    }
    let mut line = String::from_str(label);
    line.append(": ");
    line.append(value);
    assert(": "@ =~= seq![':', ' ']);
    line
}

/// Writes a line that names a size, with the digits of `n` grouped.
pub fn size_line(label: &str, n: usize) -> (line: String)
    ensures
        line@ == labelled_text(label@, french_grouping(n as nat)),
{
    let digits = group_digits(n);
    labelled(label, digits.as_str())
}

/// Appends `count` spaces to `line`.
fn pad(line: &mut String, count: usize)
    ensures
        final(line)@ == old(line)@ + spaces(count as nat),
{
    proof {
        reveal_strlit(" ");
    }
    let mut added: usize = 0;
    assert(line@ =~= old(line)@ + spaces(0));
    while added < count
        invariant
            added <= count,
            " "@ == seq![' '],
            line@ == old(line)@ + spaces(added as nat),
        decreases count - added,
    {
        line.append(" ");
        added = added + 1;
        assert(line@ =~= old(line)@ + spaces(added as nat));
    }
}

/// Centres `text` in `width` characters.
pub fn centre(text: &str, width: usize) -> (line: String)
    ensures
        line@ == centred_text(text@, width as nat),
{
    let len: usize = text.unicode_len();
    if len >= width {
        return String::from_str(text);
    }
    let padding: usize = width - len;
    let left: usize = padding / 2;
    let mut line = String::new();
    pad(&mut line, left);
    line.append(text);
    pad(&mut line, padding - left);
    assert(line@ =~= centred_text(text@, width as nat));
    line
}

} // verus!
