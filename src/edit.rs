//! In-memory file edits: single replacement and the all-or-nothing multi-edit.

use vstd::prelude::*;
use crate::text::{
    append_chars, append_str, chars_of, contains, dec, decimal_chars, find, replace_all,
    replace_all_chars, replace_first, replace_first_chars, string_of,
};

verus! {

/// One replacement of a multi-edit.
pub struct Edit {
    pub old_string: String,
    pub new_string: String,
    /// Replace every occurrence rather than the first.
    pub replace_all: bool,
}

/// The text after one edit.
pub open spec fn apply_edit(s: Seq<char>, e: Edit) -> Seq<char> {
    if e.replace_all {
        replace_all(s, e.old_string@, e.new_string@)
    } else {
        replace_first(s, e.old_string@, e.new_string@)
    }
}

/// Applies `edits[i..]` in order to `s`: the final text, or the index of the
/// first edit whose `old_string` does not occur in the text it is applied to.
pub open spec fn apply_edits_from(s: Seq<char>, edits: Seq<Edit>, i: int) -> Result<Seq<char>, int>
    decreases edits.len() - i,
{
    if i < 0 || i >= edits.len() {
        Ok(s)
    } else if !contains(s, edits[i].old_string@) {
        Err(i)
    } else {
        apply_edits_from(apply_edit(s, edits[i]), edits, i + 1)
    }
}

/// Applies all `edits` in order to `content`, in memory. Either every edit
/// applies and the result is the edited text, or the result names the first
/// edit (counted from 0) whose `old_string` is absent and no text is produced:
/// a caller that writes only on `Ok` leaves the file untouched.
pub fn multi_edit(content: &str, edits: &Vec<Edit>) -> (r: Result<String, usize>)
    ensures
        match apply_edits_from(content@, edits@, 0) {
            Ok(t) => r matches Ok(out) && out@ == t,
            Err(i) => r == Err::<String, usize>(i as usize),
        },
{
    let mut cur = chars_of(content);
    let mut i: usize = 0;
    while i < edits.len()
        invariant
            i <= edits@.len(),
            apply_edits_from(content@, edits@, 0) == apply_edits_from(cur@, edits@, i as int),
        decreases edits@.len() - i,
    {
        let e = &edits[i];
        let old = chars_of(e.old_string.as_str());
        let new = chars_of(e.new_string.as_str());
        if find(&cur, &old).is_none() {
            return Err(i);
        }
        cur = if e.replace_all {
            replace_all_chars(&cur, &old, &new)
        } else {
            replace_first_chars(&cur, &old, &new)
        };
        i += 1;
    }
    Ok(string_of(&cur))
}

pub open spec fn edit_failure_text(i: nat) -> Seq<char> {
    "Edit #"@ + dec(i) + ": 'old_string' not found in content"@
}

/// The message reporting that edit `i` (counted from 0) found nothing to replace.
pub fn edit_failure_message(i: usize) -> (r: String)
    ensures
        r@ == edit_failure_text(i as nat),
{
    let mut m = chars_of("Edit #");
    let d = decimal_chars(i as u64);
    append_chars(&mut m, &d);
    append_str(&mut m, ": 'old_string' not found in content");
    string_of(&m)
}

pub open spec fn not_found_text() -> Seq<char> {
    "old_string not found in file content"@
}

/// A single edit: the first occurrence of `old_string` replaced by
/// `new_string`; an error when `old_string` does not occur.
pub fn edit_content(content: &str, old_string: &str, new_string: &str) -> (r: Result<String, String>)
    ensures
        contains(content@, old_string@) ==> (r matches Ok(out) && out@ == replace_first(
            content@,
            old_string@,
            new_string@,
        )),
        !contains(content@, old_string@) ==> (r matches Err(m) && m@ == not_found_text()),
{
    let c = chars_of(content);
    let o = chars_of(old_string);
    let n = chars_of(new_string);
    if find(&c, &o).is_none() {
        return Err(String::from_str("old_string not found in file content"));
    }
    let out = replace_first_chars(&c, &o, &n);
    Ok(string_of(&out))
}

/// When an edit fails, nothing is produced to write, whatever the other edits
/// are: the multi-edit is all-or-nothing.
pub proof fn law_multi_edit_all_or_nothing(s: Seq<char>, edits: Seq<Edit>, i: int)
    requires
        apply_edits_from(s, edits, 0) == Err::<Seq<char>, int>(i),
    ensures
        0 <= i < edits.len(),
        forall|t: Seq<char>| apply_edits_from(s, edits, 0) != Ok::<Seq<char>, int>(t),
{
    lemma_err_index_in_range(s, edits, 0);
}

proof fn lemma_err_index_in_range(s: Seq<char>, edits: Seq<Edit>, k: int)
    requires
        0 <= k,
    ensures
        apply_edits_from(s, edits, k) matches Err(i) ==> k <= i < edits.len(),
    decreases edits.len() - k,
{
    if k < edits.len() && contains(s, edits[k].old_string@) {
        lemma_err_index_in_range(apply_edit(s, edits[k]), edits, k + 1);
    }
}

} // verus!
