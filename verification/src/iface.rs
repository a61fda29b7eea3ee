//! The choice of the network interfaces to attach to: those whose name one of
//! the configured patterns matches.

use crate::error::Error;
use crate::pattern::{compile, compiled, is_match, is_match_of};
use regex::Regex;
use vstd::prelude::*;

verus! {

/// A network interface of the machine.
#[derive(Debug, Clone)]
pub struct Iface {
    pub name: String,
    pub index: u32,
}

/// Whether `pattern` compiles to an expression that matches `name`.
pub open spec fn pattern_matches(pattern: Seq<char>, name: Seq<char>) -> bool {
    compiled(pattern) matches Ok(re) && is_match_of(re, name)
}

/// Whether one of the patterns compiles to an expression that matches `name`.
pub open spec fn any_pattern_matches(patterns: Seq<String>, name: Seq<char>) -> bool {
    exists|i: int| 0 <= i < patterns.len() && pattern_matches(#[trigger] patterns[i]@, name)
}

/// The reason why the first pattern that does not compile is refused, and
/// nothing where every pattern compiles.
pub open spec fn first_error(patterns: Seq<String>) -> Option<regex::Error>
    decreases patterns.len(),
{
    if patterns.len() == 0 {
        None
    } else {
        match first_error(patterns.drop_last()) {
            Some(e) => Some(e),
            None => match compiled(patterns.last()@) {
                Ok(_) => None,
                Err(e) => Some(e),
            },
        }
    }
}

/// Whether `regexes` are, one for one, what `patterns` compile to.
pub open spec fn compiled_from(patterns: Seq<String>, regexes: Seq<Regex>) -> bool {
    &&& regexes.len() == patterns.len()
    &&& forall|i: int|
        0 <= i < patterns.len() ==> compiled(#[trigger] patterns[i]@) == Ok::<Regex, regex::Error>(
            regexes[i],
        )
}

/// Whether one of the expressions matches `name`.
pub open spec fn any_match(regexes: Seq<Regex>, name: Seq<char>) -> bool {
    exists|i: int| 0 <= i < regexes.len() && is_match_of(#[trigger] regexes[i], name)
}

/// The interfaces of `iface_list` whose flag in `keep` is set, in their order.
pub open spec fn flagged(iface_list: Seq<Iface>, keep: Seq<bool>) -> Seq<Iface>
    decreases iface_list.len(),
{
    if iface_list.len() == 0 {
        Seq::empty()
    } else if keep[iface_list.len() - 1] {
        flagged(iface_list.drop_last(), keep).push(iface_list.last())
    } else {
        flagged(iface_list.drop_last(), keep)
    }
}

proof fn lemma_flagged_is_filter(
    iface_list: Seq<Iface>,
    keep: Seq<bool>,
    pred: spec_fn(Iface) -> bool,
)
    requires
        keep.len() >= iface_list.len(),
        forall|i: int| 0 <= i < iface_list.len() ==> keep[i] == pred(#[trigger] iface_list[i]),
    ensures
        flagged(iface_list, keep) == iface_list.filter(pred),
    decreases iface_list.len(),
{
    reveal(Seq::filter);
    if iface_list.len() > 0 {
        let rest = iface_list.drop_last();
        assert forall|i: int| 0 <= i < rest.len() implies keep[i] == pred(#[trigger] rest[i]) by {
            assert(rest[i] == iface_list[i]);
        }
        lemma_flagged_is_filter(rest, keep, pred);
        assert(keep[iface_list.len() - 1] == pred(iface_list[iface_list.len() - 1]));
    }
}

proof fn lemma_any_match_of_compiled(patterns: Seq<String>, regexes: Seq<Regex>, name: Seq<char>)
    requires
        compiled_from(patterns, regexes),
    ensures
        any_match(regexes, name) == any_pattern_matches(patterns, name),
{
    if any_match(regexes, name) {
        let i = choose|i: int| 0 <= i < regexes.len() && is_match_of(#[trigger] regexes[i], name);
        assert(pattern_matches(patterns[i]@, name));
    }
    if any_pattern_matches(patterns, name) {
        let i = choose|i: int|
            0 <= i < patterns.len() && pattern_matches(#[trigger] patterns[i]@, name);
        assert(is_match_of(regexes[i], name));
    }
}

/// Compiles the patterns, in order, and stops at the first that is refused.
pub fn compile_patterns(patterns: &[String]) -> (r: Result<Vec<Regex>, Error>)
    ensures
        match r {
            Ok(regexes) => first_error(patterns@) is None && compiled_from(patterns@, regexes@),
            Err(e) => e is Regex && first_error(patterns@) == Some(e->Regex_0),
        },
{
    let mut regexes: Vec<Regex> = Vec::new();
    let mut i: usize = 0;
    assert(patterns@.take(0) =~= Seq::<String>::empty());
    while i < patterns.len()
        invariant
            i <= patterns@.len(),
            first_error(patterns@.take(i as int)) is None,
            compiled_from(patterns@.take(i as int), regexes@),
        decreases patterns@.len() - i,
    {
        let ghost before = patterns@.take(i as int);
        let ghost upto = patterns@.take(i + 1);
        assert(upto.drop_last() =~= before);
        assert(upto.last() == patterns@[i as int]);
        match compile(patterns[i].as_str()) {
            Ok(re) => {
                regexes.push(re);
                assert forall|j: int| 0 <= j < upto.len() implies compiled(#[trigger] upto[j]@)
                    == Ok::<Regex, regex::Error>(regexes@[j]) by {
                    if j < i {
                        assert(before[j] == upto[j]);
                    }
                }
            },
            Err(e) => {
                proof {
                    lemma_first_error_stays(patterns@, i + 1);
                }
                return Err(Error::Regex(e));
            },
        }
        i += 1;
    }
    assert(patterns@.take(i as int) =~= patterns@);
    Ok(regexes)
}

proof fn lemma_first_error_stays(patterns: Seq<String>, n: int)
    requires
        0 <= n <= patterns.len(),
        first_error(patterns.take(n)) is Some,
    ensures
        first_error(patterns) == first_error(patterns.take(n)),
    decreases patterns.len() - n,
{
    if n < patterns.len() {
        assert(patterns.take(n + 1).drop_last() =~= patterns.take(n));
        lemma_first_error_stays(patterns, n + 1);
    } else {
        assert(patterns.take(n) =~= patterns);
    }
}

/// Whether one of the expressions matches `name`.
pub fn matches_any(regexes: &[Regex], name: &str) -> (b: bool)
    ensures
        b == any_match(regexes@, name@),
{
    let mut i: usize = 0;
    while i < regexes.len()
        invariant
            i <= regexes@.len(),
            forall|j: int| 0 <= j < i ==> !is_match_of(#[trigger] regexes@[j], name@),
        decreases regexes@.len() - i,
    {
        if is_match(&regexes[i], name) {
            return true;
        }
        i += 1;
    }
    false
}

/// Keeps the interfaces of `iface_list` whose flag in `keep` is set, in their
/// order.
pub fn retain_flagged(iface_list: Vec<Iface>, keep: &[bool]) -> (kept: Vec<Iface>)
    requires
        keep@.len() == iface_list@.len(),
    ensures
        kept@ == flagged(iface_list@, keep@),
{
    let mut kept: Vec<Iface> = Vec::new();
    let mut i: usize = 0;
    assert(iface_list@.take(0) =~= Seq::<Iface>::empty());
    while i < iface_list.len()
        invariant
            i <= iface_list@.len(),
            keep@.len() == iface_list@.len(),
            kept@ == flagged(iface_list@.take(i as int), keep@),
        decreases iface_list@.len() - i,
    {
        assert(iface_list@.take(i + 1).drop_last() =~= iface_list@.take(i as int));
        if keep[i] {
            kept.push(Iface { name: iface_list[i].name.clone(), index: iface_list[i].index });
        }
        i += 1;
    }
    assert(iface_list@.take(i as int) =~= iface_list@);
    kept
}

/// Keeps the interfaces whose name one of the expressions matches, in their
/// order.
pub fn filter_ifaces(regexes: &[Regex], iface_list: Vec<Iface>) -> (matched: Vec<Iface>)
    ensures
        matched@ == iface_list@.filter(|i: Iface| any_match(regexes@, i.name@)),
{
    let mut keep: Vec<bool> = Vec::new();
    let mut i: usize = 0;
    while i < iface_list.len()
        invariant
            i <= iface_list@.len(),
            keep@.len() == i,
            forall|j: int|
                0 <= j < i ==> keep@[j] == any_match(regexes@, #[trigger] iface_list@[j].name@),
        decreases iface_list@.len() - i,
    {
        keep.push(matches_any(regexes, iface_list[i].name.as_str()));
        i += 1;
    }
    proof {
        lemma_flagged_is_filter(iface_list@, keep@, |i: Iface| any_match(regexes@, i.name@));
    }
    retain_flagged(iface_list, keep.as_slice())
}

/// Chooses from `iface_list` the interfaces whose name one of the patterns
/// `ifaces` matches, in their order. Fails, before any interface is looked
/// at, where a pattern does not compile.
pub fn get_ifaces(ifaces: &[String], iface_list: Vec<Iface>) -> (r: Result<Vec<Iface>, Error>)
    ensures
        match r {
            Ok(matched) => first_error(ifaces@) is None && matched@ == iface_list@.filter(
                |i: Iface| any_pattern_matches(ifaces@, i.name@),
            ),
            Err(e) => e is Regex && first_error(ifaces@) == Some(e->Regex_0),
        },
{
    let regexes = match compile_patterns(ifaces) {
        Ok(regexes) => regexes,
        Err(e) => {
            return Err(e);
        },
    };
    proof {
        let by_regex = |i: Iface| any_match(regexes@, i.name@);
        let by_pattern = |i: Iface| any_pattern_matches(ifaces@, i.name@);
        let keep = Seq::new(iface_list@.len(), |j: int| by_regex(iface_list@[j]));
        assert forall|j: int| 0 <= j < iface_list@.len() implies keep[j] == by_pattern(
            #[trigger] iface_list@[j],
        ) by {
            lemma_any_match_of_compiled(ifaces@, regexes@, iface_list@[j].name@);
        }
        lemma_flagged_is_filter(iface_list@, keep, by_regex);
        lemma_flagged_is_filter(iface_list@, keep, by_pattern);
    }
    let matched = filter_ifaces(regexes.as_slice(), iface_list);
    Ok(matched)
}

} // verus!
