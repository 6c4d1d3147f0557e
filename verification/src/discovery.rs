//! File discovery: resolve the work set from a listing of file names.
//! A name joins the work set exactly when its extension is in the
//! recognized case-sensitive set (`jpg`, `jpeg`, `png`); everything
//! else is silently skipped, a deliberate policy of convenience over
//! strictness.
use vstd::prelude::*;

use vstd::string::StrSliceExecFns;
use vstd::string::StringExecFns;

use crate::quality::Format;
use crate::text::str_eq;

verus! {

/// One source file to process, paired with its resolved format. The
/// output path is the same file name under the output root.
#[derive(Debug)]
pub struct WorkItem {
    pub name: String,
    pub format: Format,
}

impl WorkItem {
    /// The output path for this item: its own file name under the
    /// given output root.
    pub fn output_path(&self, root: &str) -> (r: String)
        ensures
            r@ == root@ + "/"@ + self.name@,
    {
        let mut p: String = root.to_owned();
        p.append("/");
        p.append(self.name.as_str());
        p
    }
}

/// The index of the last `.` in a name, or -1 when there is none.
pub open spec fn last_dot(s: Seq<char>) -> int
    decreases s.len(),
{
    if s.len() == 0 {
        -1
    } else if s.last() == '.' {
        s.len() - 1
    } else {
        last_dot(s.drop_last())
    }
}

/// The format a bare extension denotes, if it is recognized.
pub open spec fn format_of_ext(e: Seq<char>) -> Option<Format> {
    if e == "jpg"@ || e == "jpeg"@ {
        Some(Format::Jpeg)
    } else if e == "png"@ {
        Some(Format::Png)
    } else {
        None
    }
}

/// The format a file name denotes through its extension: the
/// characters after the last `.`, provided that dot is embedded (a
/// name that starts with its only dot has no extension).
pub open spec fn format_of_name(s: Seq<char>) -> Option<Format> {
    if last_dot(s) >= 1 {
        format_of_ext(s.skip(last_dot(s) + 1))
    } else {
        None
    }
}

/// The names of the work set: those of the listing with a recognized
/// extension, in listing order.
pub open spec fn work_names(names: Seq<Seq<char>>) -> Seq<Seq<char>>
    decreases names.len(),
{
    if names.len() == 0 {
        Seq::empty()
    } else {
        let rest = work_names(names.drop_last());
        if format_of_name(names.last()) is Some {
            rest.push(names.last())
        } else {
            rest
        }
    }
}

/// If position `j` holds a dot and no later position does, then `j` is
/// the last dot.
proof fn lemma_last_dot_found(s: Seq<char>, j: int)
    requires
        0 <= j < s.len(),
        s[j] == '.',
        forall|k: int| j < k < s.len() ==> s[k] != '.',
    ensures
        last_dot(s) == j,
    decreases s.len(),
{
    if j == s.len() - 1 {
    } else {
        assert(s.last() != '.');
        assert(s.drop_last()[j] == s[j]);
        lemma_last_dot_found(s.drop_last(), j);
    }
}

/// A name without any dot has no last dot.
proof fn lemma_last_dot_none(s: Seq<char>)
    requires
        forall|k: int| 0 <= k < s.len() ==> s[k] != '.',
    ensures
        last_dot(s) == -1,
    decreases s.len(),
{
    if s.len() > 0 {
        lemma_last_dot_none(s.drop_last());
    }
}

/// The position just after the last dot of a name, if the name has an
/// embedded dot.
fn find_ext_start(name: &str) -> (r: Option<usize>)
    ensures
        match r {
            Some(j) => last_dot(name@) == j - 1 && 2 <= j <= name@.len(),
            None => last_dot(name@) < 1,
        },
{
    let n = name.unicode_len();
    let mut i: usize = n;
    while i > 0
        invariant
            i <= n,
            n == name@.len(),
            forall|k: int| i <= k < n ==> name@[k] != '.',
        decreases i,
    {
        let c = name.get_char(i - 1);
        if c == '.' {
            proof {
                lemma_last_dot_found(name@, i - 1);
            }
            if i - 1 >= 1 {
                return Some(i);
            } else {
                return None;
            }
        }
        i -= 1;
    }
    proof {
        lemma_last_dot_none(name@);
    }
    None
}

/// Match a bare extension against the recognized set.
fn format_from_ext(e: &str) -> (r: Option<Format>)
    ensures
        r == format_of_ext(e@),
{
    if str_eq(e, "jpg") || str_eq(e, "jpeg") {
        Some(Format::Jpeg)
    } else if str_eq(e, "png") {
        Some(Format::Png)
    } else {
        None
    }
}

/// Resolve the format a file name's extension denotes, if any.
pub fn format_of(name: &str) -> (r: Option<Format>)
    ensures
        r == format_of_name(name@),
{
    let n = name.unicode_len();
    match find_ext_start(name) {
        Some(j) => {
            let ext = name.substring_char(j, n);
            proof {
                assert(ext@ =~= name@.skip(last_dot(name@) + 1));
            }
            format_from_ext(ext)
        },
        None => None,
    }
}

/// Resolve the work set: every listed name with a recognized
/// extension, in listing order, paired with its format. Names with
/// unrecognized extensions are excluded, not errored.
pub fn discover(names: &Vec<String>) -> (r: Vec<WorkItem>)
    ensures
        r@.map_values(|w: WorkItem| w.name@) == work_names(
            names@.map_values(|s: String| s@),
        ),
        forall|i: int|
            0 <= i < r@.len() ==> format_of_name(#[trigger] r@[i].name@) == Some(
                r@[i].format,
            ),
{
    let ghost nv = names@.map_values(|s: String| s@);
    let mut r: Vec<WorkItem> = Vec::new();
    let mut i: usize = 0;
    while i < names.len()
        invariant
            i <= names.len(),
            nv == names@.map_values(|s: String| s@),
            r@.map_values(|w: WorkItem| w.name@) == work_names(nv.take(i as int)),
            forall|k: int|
                0 <= k < r@.len() ==> format_of_name(#[trigger] r@[k].name@) == Some(
                    r@[k].format,
                ),
        decreases names.len() - i,
    {
        let name = &names[i];
        proof {
            assert(nv.take(i + 1).drop_last() =~= nv.take(i as int));
            assert(nv.take(i + 1).last() == nv[i as int]);
            assert(nv[i as int] == name@);
        }
        match format_of(name.as_str()) {
            Some(f) => {
                let item = WorkItem { name: name.clone(), format: f };
                r.push(item);
                proof {
                    assert(r@.map_values(|w: WorkItem| w.name@) =~= work_names(
                        nv.take(i + 1),
                    ));
                }
            },
            None => {
                proof {
                    assert(work_names(nv.take(i + 1)) == work_names(nv.take(i as int)));
                }
            },
        }
        i += 1;
    }
    proof {
        assert(nv.take(names@.len() as int) =~= nv);
    }
    r
}

} // verus!
