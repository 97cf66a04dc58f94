//! Listing records by name: a stable sort by the lexicographic order of
//! their names, as `String`'s `<` orders them.
use vstd::prelude::*;
use crate::models::profile::ProfileInfo;
use crate::services::config_template::TemplateInfo;
use crate::services::logger_backend::{lemma_lex_less_asymmetric, lemma_lex_less_total, lemma_lex_less_transitive, lex_less};
use crate::services::memory_logger::lex_less_str;

verus! {

/// A record listed by its name.
pub trait Named {
    /// The name of the record.
    spec fn name_of(&self) -> Seq<char>;

    /// The name of the record.
    fn name_str(&self) -> (r: &str)
        ensures
            r@ == self.name_of(),
    ;
}

impl Named for String {
    open spec fn name_of(&self) -> Seq<char> {
        self@
    }

    fn name_str(&self) -> (r: &str) {
        self.as_str()
    }
}

impl Named for TemplateInfo {
    open spec fn name_of(&self) -> Seq<char> {
        self.name@
    }

    fn name_str(&self) -> (r: &str) {
        self.name.as_str()
    }
}

impl Named for ProfileInfo {
    open spec fn name_of(&self) -> Seq<char> {
        self.name@
    }

    fn name_str(&self) -> (r: &str) {
        self.name.as_str()
    }
}

/// Whether no record of `v` comes, by name, after a later one.
pub open spec fn sorted_by_name<T: Named>(v: Seq<T>) -> bool {
    forall|i: int, j: int| 0 <= i < j < v.len() ==> !lex_less(#[trigger] v[j].name_of(), #[trigger] v[i].name_of())
}

/// The records sorted by name; records of equal names keep their order.
pub fn sort_by_name<T: Named>(items: Vec<T>) -> (r: Vec<T>)
    ensures
        r@.len() == items@.len(),
        r@.to_multiset() == items@.to_multiset(),
        sorted_by_name(r@),
{
    broadcast use vstd::seq_lib::group_to_multiset_ensures;
    let mut rest = items;
    let mut out: Vec<T> = Vec::new();
    let ghost orig = rest@;
    while rest.len() > 0
        invariant
            out@.to_multiset().add(rest@.to_multiset()) == orig.to_multiset(),
            out@.len() + rest@.len() == orig.len(),
            sorted_by_name(out@),
        decreases rest@.len(),
    {
        let ghost before_rest = rest@;
        let t = rest.remove(0);
        proof {
            assert(before_rest[0] == t);
            assert(before_rest.contains(t));
        }
        let mut k: usize = out.len();
        let mut placed = false;
        while k > 0 && !placed
            invariant
                k <= out@.len(),
                sorted_by_name(out@),
                forall|j: int| k <= j < out@.len() ==> lex_less(t.name_of(), #[trigger] out@[j].name_of()),
                placed ==> k == 0 || !lex_less(t.name_of(), out@[k - 1].name_of()),
            decreases k + (if placed { 0int } else { 1int }),
        {
            if lex_less_str(t.name_str(), out[k - 1].name_str()) {
                k = k - 1;
            } else {
                placed = true;
            }
        }
        let ghost before = out@;
        out.insert(k, t);
        proof {
            assert(out@ =~= before.insert(k as int, t));
            assert forall|i: int, j: int| 0 <= i < j < out@.len() implies !lex_less(#[trigger] out@[j].name_of(), #[trigger] out@[i].name_of()) by {
                if i == k {
                    assert(out@[j] == before[j - 1]);
                    lemma_lex_less_asymmetric(t.name_of(), before[j - 1].name_of());
                } else if j == k {
                    assert(out@[i] == before[i]);
                    if i < k - 1 {
                        assert(!lex_less(before[k - 1].name_of(), before[i].name_of()));
                    }
                    lemma_lex_less_total(before[k - 1].name_of(), before[i].name_of());
                    if lex_less(t.name_of(), before[i].name_of()) {
                        if before[k - 1].name_of() != before[i].name_of() {
                            lemma_lex_less_total(t.name_of(), before[k - 1].name_of());
                            if lex_less(before[i].name_of(), before[k - 1].name_of()) {
                                lemma_lex_less_transitive(t.name_of(), before[i].name_of(), before[k - 1].name_of());
                            }
                        }
                    }
                } else {
                    let bi = if i < k { i } else { i - 1 };
                    let bj = if j < k { j } else { j - 1 };
                    assert(out@[i] == before[bi]);
                    assert(out@[j] == before[bj]);
                }
            }
            vstd::seq_lib::to_multiset_insert(before, k as int, t);
            assert(rest@ == before_rest.remove(0));
            vstd::seq_lib::to_multiset_contains(before_rest, t);
            vstd::seq_lib::to_multiset_remove(before_rest, 0);
            assert(before_rest.to_multiset().count(t) > 0);
            broadcast use vstd::multiset::group_multiset_axioms;
            assert(out@.to_multiset().add(rest@.to_multiset()) =~= orig.to_multiset());
        }
    }
    out
}

/// Names sorted lexicographically.
pub fn sort_names(names: Vec<String>) -> (r: Vec<String>)
    ensures
        r@.len() == names@.len(),
        r@.to_multiset() == names@.to_multiset(),
        sorted_by_name(r@),
{
    sort_by_name(names)
}

} // verus!
