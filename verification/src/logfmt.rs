//! Lines of the replay log.  The log is append-only text, one line per
//! command or per bound/skip assignment; the caller appends the lines to
//! the file.

use vstd::prelude::*;

use crate::revision::{rev_num_to_string, spec_u64_digits};

verus! {

/// The line recording one bound or skip assignment:
/// `# term: [revision] message`.
pub open spec fn spec_revision_line(term: Seq<char>, revision: u64, msg: Seq<char>) -> Seq<char> {
    "# "@ + term + ": ["@ + spec_u64_digits(revision) + "] "@ + msg
}

/// Format the log line for one bound or skip assignment; `msg` is the
/// first line of the revision's commit message.
pub fn log_bisect_revision(revision: u64, term: &str, msg: &str) -> (r: String)
    ensures
        r@ == spec_revision_line(term@, revision, msg@),
{
    let r = String::from_str("# ").concat(term).concat(": [").concat(
        rev_num_to_string(revision).as_str(),
    ).concat("] ").concat(msg);
    assert(r@ =~= spec_revision_line(term@, revision, msg@));
    r
}

/// The words of a command joined by single spaces.
pub open spec fn spec_joined(words: Seq<Seq<char>>) -> Seq<char>
    decreases words.len(),
{
    if words.len() == 0 {
        Seq::<char>::empty()
    } else if words.len() == 1 {
        words[0]
    } else {
        spec_joined(words.drop_last()) + " "@ + words.last()
    }
}

/// The view of each word of a command line.
pub open spec fn words_view(words: Seq<String>) -> Seq<Seq<char>> {
    words.map_values(|w: String| w@)
}

/// Format the log line that records one invocation: its words joined by
/// spaces.
pub fn log_bisect_command(cmd_line: &Vec<String>) -> (r: String)
    ensures
        r@ == spec_joined(words_view(cmd_line@)),
{
    let mut r = String::new();
    let mut i: usize = 0;
    while i < cmd_line.len()
        invariant
            0 <= i <= cmd_line@.len(),
            r@ == spec_joined(words_view(cmd_line@.take(i as int))),
        decreases cmd_line@.len() - i,
    {
        if i > 0 {
            r.append(" ");
        }
        r.append(cmd_line[i].as_str());
        proof {
            let prev = words_view(cmd_line@.take(i as int));
            let cur = words_view(cmd_line@.take(i as int + 1));
            assert(cur.drop_last() =~= prev);
            assert(cur.last() == cmd_line@[i as int]@);
            if i == 0 {
                assert(r@ =~= spec_joined(cur));
            } else {
                assert(r@ =~= spec_joined(cur));
            }
        }
        i = i + 1;
    }
    assert(cmd_line@.take(cmd_line@.len() as int) =~= cmd_line@);
    r
}

} // verus!
