//! The counter of picked flows: how often this node was picked as the
//! intermediate hop, by source and destination address.
//!
//! The counts live in a counter family of the `prometheus` crate, named
//! `picked_total`, with the labels `src` and `dst`. The family keeps one
//! counter for each pair of label values that it has been asked for, under a
//! key that it computes from the two values: a hash of their bytes, one value
//! after the other. A count therefore moves exactly where the key is the key
//! of the pair that is counted. Two different pairs have the same key where
//! their joined texts are the same, and then share one counter, kept under the
//! pair that came first.

use crate::addr::{dotted, ipv4_text};
use crate::error::Error;
use prometheus::Error as PrometheusError;
use prometheus::{IntCounterVec, Opts, Registry};
use vstd::pervasive::unreached;
use vstd::prelude::*;

verus! {

/// `prometheus::Error`. Nothing is known of what is inside.
#[verifier::external_type_specification]
#[verifier::external_body]
pub struct ExPrometheusError(PrometheusError);

/// `prometheus::Registry`, the set of collectors that the metrics endpoint
/// exposes. Nothing is known of what is inside.
#[verifier::external_type_specification]
#[verifier::external_body]
pub struct ExRegistry(Registry);

/// The counter family of picked flows, a `prometheus::IntCounterVec` with the
/// labels `src` and `dst`. Verus does not look inside: the type of the family
/// is made of a builder type that `prometheus` keeps in a private module, so
/// it cannot be declared and the struct is taken on trust as a whole.
#[verifier::external_body]
pub struct Metrics {
    picked_total: IntCounterVec,
}

/// The name under which the family is exposed: the name that
/// `IntCounterVec::new` was given, which `Desc::new` keeps as it stands.
pub uninterp spec fn family_name(metrics: Metrics) -> Seq<char>;

/// The names of the family's two labels, in the order in which their values
/// are given: the label names that `IntCounterVec::new` was given.
pub uninterp spec fn family_labels(metrics: Metrics) -> (Seq<char>, Seq<char>);

/// The pairs of label values for which the family holds a counter, and so
/// exposes a sample: what `collect` hands out.
pub uninterp spec fn family_pairs(metrics: Metrics) -> Set<(Seq<char>, Seq<char>)>;

/// The count that the family holds for the label values `src` and `dst`: what
/// `with_label_values(&[src, dst]).get()` returns on it. It is zero where the
/// family holds no counter under the key of the pair.
pub uninterp spec fn picked_count(metrics: Metrics, src: Seq<char>, dst: Seq<char>) -> u64;

/// The key under which the family keeps the counter of the label values `src`
/// and `dst`: what its `hash_label_values` computes from the two values.
pub uninterp spec fn label_key(src: Seq<char>, dst: Seq<char>) -> u64;

/// The count that follows `n`. The counter is a 64-bit number that starts
/// again at zero after its largest value.
pub open spec fn next_count(n: u64) -> u64 {
    if n == u64::MAX {
        0
    } else {
        (n + 1) as u64
    }
}

/// Whether the family holds a counter under `key`.
pub open spec fn key_held(metrics: Metrics, key: u64) -> bool {
    exists|s: Seq<char>, d: Seq<char>|
        #[trigger] family_pairs(metrics).contains((s, d)) && label_key(s, d) == key
}

/// The pairs that the family holds once it was asked for the counter of `src`
/// and `dst`: the pair is new to it unless a counter stands under its key.
pub open spec fn pairs_with(metrics: Metrics, src: Seq<char>, dst: Seq<char>) -> Set<
    (Seq<char>, Seq<char>),
> {
    if key_held(metrics, label_key(src, dst)) {
        family_pairs(metrics)
    } else {
        family_pairs(metrics).insert((src, dst))
    }
}

/// Whether `after` is exposed under the name and the labels of `before`.
pub open spec fn same_family(before: Metrics, after: Metrics) -> bool {
    &&& family_name(after) == family_name(before)
    &&& family_labels(after) == family_labels(before)
}

/// How the family `after` relates to the family `before` when one flow from
/// `src` to `dst` was counted in between: name and labels are the same, the
/// pair is held, and a count went up by one exactly where it is kept under
/// the key of the pair. Every other count is as it was.
pub open spec fn counted(before: Metrics, after: Metrics, src: Seq<char>, dst: Seq<char>) -> bool {
    &&& same_family(before, after)
    &&& family_pairs(after) == pairs_with(before, src, dst)
    &&& forall|s: Seq<char>, d: Seq<char>|
        #![trigger picked_count(after, s, d)]
        picked_count(after, s, d) == if label_key(s, d) == label_key(src, dst) {
            next_count(picked_count(before, s, d))
        } else {
            picked_count(before, s, d)
        }
}

/// How the family `after` relates to the family `before` when the count of
/// `src` and `dst` was read in between: name, labels and every count are the
/// same, and the pair is held, with the count zero where it is new.
pub open spec fn looked_at(
    before: Metrics,
    after: Metrics,
    src: Seq<char>,
    dst: Seq<char>,
) -> bool {
    &&& same_family(before, after)
    &&& family_pairs(after) == pairs_with(before, src, dst)
    &&& forall|s: Seq<char>, d: Seq<char>|
        #![trigger picked_count(after, s, d)]
        picked_count(after, s, d) == picked_count(before, s, d)
}

/// Whether the family is new: exposed as `picked_total` with the labels `src`
/// and `dst`, and without any sample yet.
pub open spec fn is_new_family(metrics: Metrics) -> bool {
    &&& family_name(metrics) == "picked_total"@
    &&& family_labels(metrics) == ("src"@, "dst"@)
    &&& family_pairs(metrics) == Set::<(Seq<char>, Seq<char>)>::empty()
    &&& forall|s: Seq<char>, d: Seq<char>| #[trigger] picked_count(metrics, s, d) == 0
}

/// Whether `c` is a letter of the ASCII alphabet.
pub open spec fn is_ascii_letter(c: char) -> bool {
    ('a' <= c && c <= 'z') || ('A' <= c && c <= 'Z')
}

/// Whether `c` may start a name: a letter or an underscore, and a colon too
/// where `colon` allows it.
pub open spec fn starts_name(c: char, colon: bool) -> bool {
    is_ascii_letter(c) || c == '_' || (colon && c == ':')
}

/// Whether `text` is a name as the family takes it: not empty, started as
/// [`starts_name`] says, and continued with such characters or decimal digits.
pub open spec fn is_name(text: Seq<char>, colon: bool) -> bool {
    &&& text.len() > 0
    &&& starts_name(text[0], colon)
    &&& forall|i: int|
        0 < i < text.len() ==> starts_name(#[trigger] text[i], colon) || ('0' <= text[i] && text[i]
            <= '9')
}

/// Whether a family can be made with this name, this help text and these two
/// label names: the help text is not empty, the name is a name in which
/// colons may stand, and the label names are two different names without
/// colons.
pub open spec fn describable(
    name: Seq<char>,
    help: Seq<char>,
    src_label: Seq<char>,
    dst_label: Seq<char>,
) -> bool {
    &&& help.len() > 0
    &&& is_name(name, true)
    &&& is_name(src_label, false)
    &&& is_name(dst_label, false)
    &&& src_label != dst_label
}

impl Metrics {
    /// The count kept for flows from `src` to `dst`, both in display form.
    pub open spec fn picked(self, src: Seq<char>, dst: Seq<char>) -> u64 {
        picked_count(self, src, dst)
    }

    /// Calls `IntCounterVec::new` with options made by `Opts::new`. Claimed:
    /// the family is made exactly where [`describable`] holds, which is what
    /// the checks of `Desc::new` come to for options without namespace,
    /// subsystem and constant labels; a family that was made has the name and
    /// the label names it was given, holds no counter and has the count zero
    /// for every pair of label values.
    #[verifier::external_body]
    fn family(name: &str, help: &str, src_label: &str, dst_label: &str) -> (r: Result<
        Metrics,
        PrometheusError,
    >)
        ensures
            (r is Ok) == describable(name@, help@, src_label@, dst_label@),
            r matches Ok(m) ==> family_name(m) == name@,
            r matches Ok(m) ==> family_labels(m) == (src_label@, dst_label@),
            r matches Ok(m) ==> family_pairs(m) == Set::<(Seq<char>, Seq<char>)>::empty(),
            r matches Ok(m) ==> forall|s: Seq<char>, d: Seq<char>| #[trigger]
                picked_count(m, s, d) == 0,
    {
        let picked_total = IntCounterVec::new(Opts::new(name, help), &[src_label, dst_label])?;
        Ok(Metrics { picked_total })
    }

    /// Calls `with_label_values` and, on the counter it returns, `inc`.
    /// Claimed, as [`counted`] says: the family finds the counter under the
    /// key of the two label values and makes one there, for this pair, where
    /// none stands; that counter goes up by one, starting again at zero after
    /// the largest value, as the atomic addition under it does; no other
    /// counter, and neither name nor labels, change.
    #[verifier::external_body]
    fn bump(&mut self, src: &str, dst: &str)
        ensures
            same_family(*old(self), *final(self)),
            family_pairs(*final(self)) == pairs_with(*old(self), src@, dst@),
            forall|s: Seq<char>, d: Seq<char>|
                #![trigger picked_count(*final(self), s, d)]
                picked_count(*final(self), s, d) == if label_key(s, d) == label_key(src@, dst@) {
                    next_count(picked_count(*old(self), s, d))
                } else {
                    picked_count(*old(self), s, d)
                },
    {
        self.picked_total.with_label_values(&[src, dst]).inc();
    }

    /// Calls `with_label_values` and, on the counter it returns, `get`.
    /// Claimed, as [`looked_at`] says: the answer is the count under its name;
    /// the call makes a counter for the pair where none stands under its key,
    /// which starts at zero, and changes nothing else.
    #[verifier::external_body]
    fn read(&mut self, src: &str, dst: &str) -> (n: u64)
        ensures
            n == picked_count(*old(self), src@, dst@),
            looked_at(*old(self), *final(self), src@, dst@),
    {
        self.picked_total.with_label_values(&[src, dst]).get()
    }

    /// Calls `Registry::register` with a clone of the family, which shares
    /// its counters. Nothing is claimed of the outcome: it depends on what
    /// the registry holds.
    #[verifier::external_body]
    fn offer(&self, registry: &Registry) -> (r: Result<(), PrometheusError>) {
        registry.register(Box::new(self.picked_total.clone()))
    }

    /// The family `picked_total` with the labels `src` and `dst`, without any
    /// sample yet.
    pub fn new() -> (m: Metrics)
        ensures
            is_new_family(m),
    {
        proof {
            reveal_strlit("picked_total");
            reveal_strlit("The count of picked as the intermediate node");
            reveal_strlit("src");
            reveal_strlit("dst");
        }
        match Metrics::family(
            "picked_total",
            "The count of picked as the intermediate node",
            "src",
            "dst",
        ) {
            Ok(m) => m,
            Err(_) => unreached(),
        }
    }

    /// What `register` returns for each outcome of the registry: the family
    /// itself where it was accepted, the refusal where it was not.
    pub fn registered(self, outcome: Result<(), PrometheusError>) -> (r: Result<Metrics, Error>)
        ensures
            r == match outcome {
                Ok(_) => Ok::<Metrics, Error>(self),
                Err(e) => Err::<Metrics, Error>(Error::Metrics(e)),
            },
    {
        match outcome {
            Ok(_) => Ok(self),
            Err(e) => Err(Error::Metrics(e)),
        }
    }

    /// Offers the family to `registry`, so that the metrics endpoint exposes
    /// it, and gives the family back unchanged where the registry accepts it.
    pub fn register(self, registry: &Registry) -> (r: Result<Metrics, Error>)
        ensures
            r matches Ok(m) ==> m == self,
            r matches Err(e) ==> e is Metrics,
    {
        let outcome = self.offer(registry);
        self.registered(outcome)
    }

    /// Counts one flow from `src` to `dst`, IPv4 addresses as numbers in host
    /// order, under their display forms.
    pub fn picked_total(&mut self, src: u32, dst: u32)
        ensures
            counted(*old(self), *final(self), dotted(src), dotted(dst)),
    {
        let src_text = ipv4_text(src);
        let dst_text = ipv4_text(dst);
        self.bump(src_text.as_str(), dst_text.as_str());
    }

    /// The count kept under the label values `src` and `dst`. The family
    /// cannot be asked without making a counter for the pair where it has
    /// none: a pair that is new to the family is held afterwards, with the
    /// count zero.
    pub fn count(&mut self, src: &str, dst: &str) -> (n: u64)
        ensures
            n == old(self).picked(src@, dst@),
            looked_at(*old(self), *final(self), src@, dst@),
    {
        self.read(src, dst)
    }
}

/// The first count on a new family leaves it with one sample: the pair that
/// was counted, with the count one.
pub proof fn lemma_first_count(before: Metrics, after: Metrics, src: Seq<char>, dst: Seq<char>)
    requires
        is_new_family(before),
        counted(before, after, src, dst),
    ensures
        family_name(after) == "picked_total"@,
        family_labels(after) == ("src"@, "dst"@),
        family_pairs(after) == set![(src, dst)],
        picked_count(after, src, dst) == 1,
{
    assert(!key_held(before, label_key(src, dst)));
    assert(family_pairs(after) =~= set![(src, dst)]);
}

/// Counting one pair leaves the count of every pair that is kept under
/// another key as it was, and never adds or drops a sample of such a pair.
pub proof fn lemma_other_counts_stay(
    before: Metrics,
    after: Metrics,
    src: Seq<char>,
    dst: Seq<char>,
    s: Seq<char>,
    d: Seq<char>,
)
    requires
        counted(before, after, src, dst),
        label_key(s, d) != label_key(src, dst),
    ensures
        picked_count(after, s, d) == picked_count(before, s, d),
        family_pairs(after).contains((s, d)) == family_pairs(before).contains((s, d)),
{
}

impl Default for Metrics {
    /// The family `picked_total` with the labels `src` and `dst`, without any
    /// sample yet.
    fn default() -> (m: Metrics)
        ensures
            is_new_family(m),
    {
        Metrics::new()
    }
}

} // verus!
