//! The open-source license notice: the collected dependency list with the license texts,
//! and the state of the page that shows it.

use crate::text::chars_of;
use vstd::prelude::*;

verus! {

/// One dependency of the notice.
pub struct CrateEntry {
    /// Crate name.
    pub n: String,
    /// Version.
    pub v: String,
    /// SPDX license expression.
    pub l: String,
    /// Repository URL (also where the sources of LGPL parts are found).
    pub r: Option<String>,
    /// Indices into [`Doc::texts`]: the license texts and notices of this crate.
    pub t: Vec<usize>,
}

/// The collected notice.
pub struct Doc {
    /// Collection date (YYYY-MM-DD).
    pub generated: String,
    pub crates: Vec<CrateEntry>,
    /// The license texts, each once; entries refer to them by index.
    pub texts: Vec<String>,
}

/// State of the license page: the notice, the crate shown, and the search text.
pub struct LicensesPage {
    pub doc: Doc,
    pub selected: usize,
    pub filter: String,
}

/// The Unicode lowercase of a string (`str::to_lowercase`).
pub uninterp spec fn lowercase_of(s: Seq<char>) -> Seq<char>;

/// Trusted wrapper of `str::to_lowercase`: the string in Unicode lowercase, as std defines
/// it; the result is named, not spelled out.
#[verifier::external_body]
fn to_lowercase(s: &str) -> (r: String)
    ensures
        r@ == lowercase_of(s@),
{
    s.to_lowercase()
}

/// Whether `needle` occurs in `hay` as a run of consecutive characters.
pub open spec fn contains_run(hay: Seq<char>, needle: Seq<char>) -> bool {
    exists|i: int| 0 <= i && i + needle.len() <= hay.len() && #[trigger] hay.subrange(i, i + needle.len()) == needle
}

/// Whether a crate is listed under the search text `f`: always for an empty search, else
/// when its name or license contains the search text, all in lowercase.
pub open spec fn listed(c_name: Seq<char>, c_license: Seq<char>, f: Seq<char>) -> bool {
    let lf = lowercase_of(f);
    lf.len() == 0 || contains_run(lowercase_of(c_name), lf) || contains_run(lowercase_of(c_license), lf)
}

/// Whether `needle` occurs in `hay`.
fn has_run(hay: &Vec<char>, needle: &Vec<char>) -> (r: bool)
    ensures
        r == contains_run(hay@, needle@),
{
    if needle.len() > hay.len() {
        proof {
            assert forall|i: int| 0 <= i && i + needle@.len() <= hay@.len() implies #[trigger] hay@.subrange(
                i,
                i + needle@.len(),
            ) != needle@ by {}
        }
        return false;
    }
    let last = hay.len() - needle.len();
    let mut i: usize = 0;
    while i <= last
        invariant
            last == hay.len() - needle.len(),
            needle.len() <= hay.len(),
            i <= last + 1,
            forall|j: int| 0 <= j < i ==> #[trigger] hay@.subrange(j, j + needle@.len()) != needle@,
        decreases last + 1 - i,
    {
        let mut k: usize = 0;
        let mut same = true;
        while k < needle.len()
            invariant
                i <= last,
                last == hay.len() - needle.len(),
                k <= needle.len(),
                same == forall|m: int| 0 <= m < k ==> hay@[i + m] == needle@[m],
            decreases needle.len() - k,
        {
            if hay[i + k] != needle[k] {
                same = false;
            }
            k = k + 1;
        }
        if same {
            proof {
                assert(hay@.subrange(i as int, i + needle@.len()) =~= needle@);
            }
            return true;
        }
        proof {
            let m = choose|m: int| 0 <= m < needle.len() && hay@[i + m] != needle@[m];
            assert(hay@.subrange(i as int, i + needle@.len())[m] != needle@[m]);
        }
        i = i + 1;
    }
    false
}

impl Doc {
    /// The notice with nothing collected.
    pub fn empty() -> (d: Doc)
        ensures
            d.generated@.len() == 0,
            d.crates@.len() == 0,
            d.texts@.len() == 0,
    {
        Doc { generated: String::new(), crates: Vec::new(), texts: Vec::new() }
    }
}

impl LicensesPage {
    /// The page opened on the notice `doc`: first crate shown, no search.
    pub fn with_doc(doc: Doc) -> (p: LicensesPage)
        ensures
            p.doc == doc,
            p.selected == 0,
            p.filter@.len() == 0,
    {
        LicensesPage { doc, selected: 0, filter: String::new() }
    }

    /// Indices of the crates listed under the current search text, in order.
    pub fn listed_crates(&self) -> (r: Vec<usize>)
        ensures
            forall|k: int| 0 <= k < r@.len() ==> #[trigger] r@[k] < self.doc.crates@.len(),
            forall|a: int, b: int| 0 <= a < b < r@.len() ==> #[trigger] r@[a] < #[trigger] r@[b],
            forall|i: int|
                0 <= i < self.doc.crates@.len() ==> (r@.contains(i as usize) <==> listed(
                    #[trigger] self.doc.crates@[i].n@,
                    self.doc.crates@[i].l@,
                    self.filter@,
                )),
    {
        let f = chars_of(to_lowercase(self.filter.as_str()).as_str());
        let mut out: Vec<usize> = Vec::new();
        let mut i: usize = 0;
        while i < self.doc.crates.len()
            invariant
                i <= self.doc.crates.len(),
                f@ == lowercase_of(self.filter@),
                forall|k: int| 0 <= k < out@.len() ==> #[trigger] out@[k] < i,
                forall|a: int, b: int| 0 <= a < b < out@.len() ==> #[trigger] out@[a] < #[trigger] out@[b],
                forall|j: int|
                    0 <= j < i ==> (out@.contains(j as usize) <==> listed(
                        #[trigger] self.doc.crates@[j].n@,
                        self.doc.crates@[j].l@,
                        self.filter@,
                    )),
            decreases self.doc.crates.len() - i,
        {
            let c = &self.doc.crates[i];
            let keep = if f.len() == 0 {
                true
            } else {
                let name = chars_of(to_lowercase(c.n.as_str()).as_str());
                if has_run(&name, &f) {
                    true
                } else {
                    let lic = chars_of(to_lowercase(c.l.as_str()).as_str());
                    has_run(&lic, &f)
                }
            };
            let ghost before = out@;
            if keep {
                out.push(i);
            }
            proof {
                assert forall|j: int|
                    0 <= j < i + 1 implies (out@.contains(j as usize) <==> listed(
                    #[trigger] self.doc.crates@[j].n@,
                    self.doc.crates@[j].l@,
                    self.filter@,
                )) by {
                    if j < i {
                        if before.contains(j as usize) {
                            let k = choose|k: int| 0 <= k < before.len() && before[k] == j as usize;
                            assert(out@[k] == j as usize);
                        }
                        if out@.contains(j as usize) {
                            let k = choose|k: int| 0 <= k < out@.len() && out@[k] == j as usize;
                            if k == before.len() {
                                assert(out@[k] == i);
                            } else {
                                assert(before[k] == j as usize);
                            }
                        }
                    } else {
                        if keep {
                            assert(out@[out@.len() - 1] == i);
                        } else {
                            if out@.contains(j as usize) {
                                let k = choose|k: int| 0 <= k < out@.len() && out@[k] == j as usize;
                                assert(out@[k] < i);
                            }
                        }
                    }
                }
            }
            i = i + 1;
        }
        out
    }

    /// The license texts of the crate shown, in order (indices out of range are skipped);
    /// none if no crate is shown.
    pub fn shown_texts(&self) -> (r: Vec<usize>)
        ensures
            self.selected >= self.doc.crates@.len() ==> r@.len() == 0,
            self.selected < self.doc.crates@.len() ==> r@ == self.doc.crates@[self.selected as int].t@.filter(
                |t: usize| t < self.doc.texts@.len(),
            ),
    {
        let mut out: Vec<usize> = Vec::new();
        if self.selected >= self.doc.crates.len() {
            return out;
        }
        let t = &self.doc.crates[self.selected].t;
        let ghost p = |x: usize| x < self.doc.texts@.len();
        let mut k: usize = 0;
        while k < t.len()
            invariant
                k <= t.len(),
                out@ == t@.take(k as int).filter(p),
                p == (|x: usize| x < self.doc.texts@.len()),
            decreases t.len() - k,
        {
            proof {
                reveal(Seq::filter);
                assert(t@.take(k + 1).drop_last() == t@.take(k as int));
            }
            if t[k] < self.doc.texts.len() {
                out.push(t[k]);
            }
            k = k + 1;
        }
        proof {
            assert(t@.take(t.len() as int) == t@);
        }
        out
    }
}

} // verus!
