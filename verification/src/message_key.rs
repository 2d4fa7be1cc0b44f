//! Dotted message keys, split into their path segments.

use crate::strutil::{split_char, split_char_exec};
use vstd::prelude::*;

verus! {

/// The segments from position `i` on, each followed by a comma.
pub open spec fn spec_comma_list(segs: Seq<Seq<char>>, i: int) -> Seq<char>
    decreases segs.len() - i,
    when 0 <= i <= segs.len()
{
    if i >= segs.len() {
        Seq::<char>::empty()
    } else {
        segs[i] + ","@ + spec_comma_list(segs, i + 1)
    }
}

/// A message key, held as the ordered sequence of segments obtained by
/// splitting the key string on `.`.  Empty segments (from leading,
/// trailing or doubled dots) are preserved; they simply fail to match any
/// table key during resolution.
pub struct MessageKey {
    path: Vec<String>,
}

impl View for MessageKey {
    type V = Seq<Seq<char>>;

    closed spec fn view(&self) -> Seq<Seq<char>> {
        self.path@.map_values(|t: String| t@)
    }
}

impl MessageKey {
    /// Splits the key string on the literal character `.`.
    pub fn new(string: String) -> (r: MessageKey)
        ensures
            r@ == split_char(string@, '.'),
    {
        MessageKey { path: split_char_exec(string.as_str(), '.') }
    }

    /// The ordered path segments.
    pub fn get_path(&self) -> (r: &Vec<String>)
        ensures
            r@.map_values(|t: String| t@) == self@,
    {
        &self.path
    }

    /// The key in a readable form: `messagekey: ` and the segments,
    /// comma-separated.
    pub fn describe(&self) -> (r: String)
        requires
            self@.len() > 0,
        ensures
            ({
                let full = "messagekey: "@ + spec_comma_list(self@, 0);
                r@ == full.subrange(0, full.len() - 1)
            }),
    {
        proof {
            reveal_strlit("messagekey: ");
        }
        let ghost segs = self@;
        let mut out = "messagekey: ".to_owned();
        let ghost prefix = out@;
        let mut i: usize = 0;
        assert(prefix + spec_comma_list(segs, 0) =~= out@ + spec_comma_list(segs, 0));
        while i < self.path.len()
            invariant
                0 <= i <= self.path.len(),
                segs == self@,
                segs == self.path@.map_values(|t: String| t@),
                segs.len() == self.path@.len(),
                prefix + spec_comma_list(segs, 0) == out@ + spec_comma_list(segs, i as int),
                out@.len() >= prefix.len(),
                prefix.len() == 12,
            decreases self.path.len() - i,
        {
            assert(segs[i as int] == self.path@[i as int]@);
            out.append(self.path[i].as_str());
            out.append(",");
            assert((segs[i as int] + ","@) + spec_comma_list(segs, i as int + 1)
                =~= segs[i as int] + ","@ + spec_comma_list(segs, i as int + 1));
            i += 1;
        }
        let n = out.as_str().unicode_len();
        assert(spec_comma_list(segs, segs.len() as int) =~= Seq::<char>::empty());
        assert(out@ =~= prefix + spec_comma_list(segs, 0));
        assert(n >= 1) by {
            reveal_strlit(",");
        }
        let r = out.as_str().substring_char(0, n - 1).to_owned();
        r
    }
}

} // verus!
