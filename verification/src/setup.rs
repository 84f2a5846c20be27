//! First-run setup: saving settings to the project's `.env` file. Reading
//! and writing the file is left to the caller.

use vstd::prelude::*;

use crate::text::{chars_of, join, join_strs, lines, lines_of, push_str, starts_with, strs_view};

verus! {

/// The setup wizard.
pub struct SetupWizard;

/// The lines of a `.env` file with `key=value` set: every line starting with
/// `key=` becomes `key=value`; without one, the assignment is added last.
pub open spec fn updated_lines(ls: Seq<Seq<char>>, key: Seq<char>, value: Seq<char>) -> Seq<
    Seq<char>,
> {
    let target = key + "="@;
    let replaced = ls.map_values(|l: Seq<char>| if starts_with(l, target) { target + value } else { l });
    if exists|i: int| 0 <= i < ls.len() && starts_with(#[trigger] ls[i], target) {
        replaced
    } else {
        replaced.push(target + value)
    }
}

impl SetupWizard {
    /// The new content of a `.env` file after setting `key=value`: the
    /// updated lines, each followed by a newline.
    pub fn updated_env(content: &str, key: &str, value: &str) -> (r: String)
        ensures
            r@ == join(updated_lines(lines(content@), key@, value@).push(seq![]), "\n"@),
    {
        let v = chars_of(content);
        let ls = lines_of(&v);
        let ghost lsv = strs_view(ls@);
        let mut target = key.to_owned();
        push_str(&mut target, "=");
        let tv = chars_of(target.as_str());
        let mut assignment = crate::agent::copy_string(&target);
        push_str(&mut assignment, value);
        let ghost f = |l: Seq<char>| if starts_with(l, tv@) { tv@ + value@ } else { l };
        let mut out: Vec<String> = Vec::new();
        let mut replaced = false;
        let mut i: usize = 0;
        while i < ls.len()
            invariant
                i <= ls@.len(),
                lsv == strs_view(ls@),
                tv@ == key@ + "="@,
                assignment@ == tv@ + value@,
                f == (|l: Seq<char>| if starts_with(l, tv@) { tv@ + value@ } else { l }),
                strs_view(out@) == lsv.take(i as int).map_values(f),
                replaced <==> exists|j: int| 0 <= j < i && starts_with(#[trigger] lsv[j], tv@),
            decreases ls@.len() - i,
        {
            let lv = chars_of(ls[i].as_str());
            assert(lsv[i as int] == ls@[i as int]@);
            let ghost before = out@;
            if crate::text::starts_with_chars(&lv, &tv) {
                out.push(crate::agent::copy_string(&assignment));
                replaced = true;
            } else {
                out.push(crate::agent::copy_string(&ls[i]));
            }
            proof {
                assert(strs_view(out@) =~= strs_view(before).push(f(lsv[i as int])));
                assert(lsv.take(i + 1).map_values(f) =~= lsv.take(i as int).map_values(f).push(
                    f(lsv[i as int]),
                ));
            }
            i = i + 1;
        }
        assert(lsv.take(ls@.len() as int) =~= lsv);
        if !replaced {
            let ghost before = out@;
            out.push(assignment);
            assert(strs_view(out@) =~= strs_view(before).push(tv@ + value@));
        }
        let ghost before = out@;
        out.push(String::new());
        assert(strs_view(out@) =~= strs_view(before).push(seq![]));
        join_strs(&out, "\n")
    }
}

} // verus!
