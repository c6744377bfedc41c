//! Rendering a sequence as a status message. The outbound post itself is
//! plain I/O and lives outside the library.

use vstd::prelude::*;

use crate::oeis::OeisSequence;
use crate::term::join_terms;
use crate::term::joined_terms;
use crate::text::a_label;
use crate::text::a_label_chars;
use crate::text::dec_chars;
use crate::text::u64_to_string;

verus! {

/// The text of the status message for `q`: the display label and name,
/// the terms joined by `, `, and the record's URL.
pub open spec fn status_chars(q: OeisSequence) -> Seq<char> {
    "OEIS sequence "@ + a_label_chars(q.number as int) + "\n"@ + q.name@ + "\n\n"@ + joined_terms(
        q.data@,
        ", "@,
    ) + "\n\nhttps://oeis.org/A"@ + dec_chars(q.number as int)
}

/// Format a sequence as a status message.
pub fn format_status(q: &OeisSequence) -> (r: String)
    requires
        q.well_formed(),
    ensures
        r@ == status_chars(*q),
{
    let mut out = String::new();
    out.append("OEIS sequence ");
    let label = a_label(q.number);
    out.append(label.as_str());
    out.append("\n");
    out.append(q.name.as_str());
    out.append("\n\n");
    let data = join_terms(&q.data, ", ");
    out.append(data.as_str());
    out.append("\n\nhttps://oeis.org/A");
    let digits = u64_to_string(q.number);
    out.append(digits.as_str());
    out
}

} // verus!
