//! Candidates: the places an install of the debug adapter can come from, and
//! the order in which they are preferred.

use crate::text::{
    lemma_lex_lt_total, lemma_lex_lt_transitive, lex_lt, order_of, TextOrder,
};
use vstd::prelude::*;

verus! {

/// Where a candidate install comes from.
///
/// The order of the variants matters: of two candidates with the same
/// directory name the local one is preferred, so that a version that is
/// already on disk is never downloaded again.
#[derive(Debug, PartialEq, Eq)]
pub enum DapBinarySource {
    /// A release archive that has to be downloaded from `url` first.
    Github { url: String },
    /// A directory that is already present in the working directory.
    Local,
}

/// One candidate install: a version directory and where it comes from.
#[derive(Debug, PartialEq, Eq)]
pub struct UnityDapBinary {
    /// Name of the directory that holds (or will hold) this version.
    pub dir_name: String,
    pub source: DapBinarySource,
}

/// Mathematical model of a [`DapBinarySource`].
pub enum DapBinarySourceView {
    Github { url: Seq<char> },
    Local,
}

/// Mathematical model of a [`UnityDapBinary`].
pub struct UnityDapBinaryView {
    pub dir_name: Seq<char>,
    pub source: DapBinarySourceView,
}

impl View for DapBinarySource {
    type V = DapBinarySourceView;

    open spec fn view(&self) -> DapBinarySourceView {
        match self {
            DapBinarySource::Github { url } => DapBinarySourceView::Github { url: url@ },
            DapBinarySource::Local => DapBinarySourceView::Local,
        }
    }
}

impl DeepView for DapBinarySource {
    type V = DapBinarySourceView;

    open spec fn deep_view(&self) -> DapBinarySourceView {
        self@
    }
}

impl View for UnityDapBinary {
    type V = UnityDapBinaryView;

    open spec fn view(&self) -> UnityDapBinaryView {
        UnityDapBinaryView { dir_name: self.dir_name@, source: self.source@ }
    }
}

impl DeepView for UnityDapBinary {
    type V = UnityDapBinaryView;

    open spec fn deep_view(&self) -> UnityDapBinaryView {
        self@
    }
}

/// Strict order on sources: every download comes before `Local`, and two
/// downloads are ordered by their addresses.
pub open spec fn source_lt(a: DapBinarySourceView, b: DapBinarySourceView) -> bool {
    match (a, b) {
        (DapBinarySourceView::Github { url: u }, DapBinarySourceView::Github { url: v }) => lex_lt(
            u,
            v,
        ),
        (DapBinarySourceView::Github { .. }, DapBinarySourceView::Local) => true,
        (DapBinarySourceView::Local, _) => false,
    }
}

/// Strict order on candidates: by directory name in dictionary order, and
/// among equal names by source. The greatest candidate is the most preferred.
pub open spec fn binary_lt(a: UnityDapBinaryView, b: UnityDapBinaryView) -> bool {
    lex_lt(a.dir_name, b.dir_name) || (a.dir_name == b.dir_name && source_lt(a.source, b.source))
}

/// Of two different candidates exactly one is below the other.
pub proof fn lemma_binary_lt_total(a: UnityDapBinaryView, b: UnityDapBinaryView)
    ensures
        a != b ==> (binary_lt(a, b) <==> !binary_lt(b, a)),
        a == b ==> !binary_lt(a, b),
{
    lemma_lex_lt_total(a.dir_name, b.dir_name);
    match (a.source, b.source) {
        (DapBinarySourceView::Github { url: u }, DapBinarySourceView::Github { url: v }) => {
            lemma_lex_lt_total(u, v);
        },
        _ => {},
    }
}

/// The order on candidates is transitive.
pub proof fn lemma_binary_lt_transitive(
    a: UnityDapBinaryView,
    b: UnityDapBinaryView,
    c: UnityDapBinaryView,
)
    requires
        binary_lt(a, b),
        binary_lt(b, c),
    ensures
        binary_lt(a, c),
{
    lemma_lex_lt_total(a.dir_name, b.dir_name);
    lemma_lex_lt_total(b.dir_name, c.dir_name);
    if lex_lt(a.dir_name, b.dir_name) && lex_lt(b.dir_name, c.dir_name) {
        lemma_lex_lt_transitive(a.dir_name, b.dir_name, c.dir_name);
    } else if a.dir_name == b.dir_name && b.dir_name == c.dir_name {
        match (a.source, b.source, c.source) {
            (
                DapBinarySourceView::Github { url: u },
                DapBinarySourceView::Github { url: v },
                DapBinarySourceView::Github { url: w },
            ) => {
                lemma_lex_lt_transitive(u, v, w);
            },
            _ => {},
        }
    }
}

/// What is not below a candidate that is not below a third is not below the
/// third either.
pub proof fn lemma_not_below_transitive(
    a: UnityDapBinaryView,
    b: UnityDapBinaryView,
    c: UnityDapBinaryView,
)
    requires
        !binary_lt(a, b),
        !binary_lt(b, c),
    ensures
        !binary_lt(a, c),
{
    lemma_binary_lt_total(a, b);
    lemma_binary_lt_total(b, c);
    lemma_binary_lt_total(a, c);
    if binary_lt(a, c) {
        if a == b || b == c {
        } else {
            // c is above a, a is above b, so c is above b: against the premise.
            lemma_binary_lt_transitive(b, a, c);
        }
    }
}

impl DapBinarySource {
    /// Tells whether `self` is strictly below `other`.
    pub fn is_below(&self, other: &DapBinarySource) -> (r: bool)
        ensures
            r == source_lt(self@, other@),
    {
        match self {
            DapBinarySource::Local => false,
            DapBinarySource::Github { url } => match other {
                DapBinarySource::Local => true,
                DapBinarySource::Github { url: other_url } => {
                    order_of(url.as_str(), other_url.as_str()) == TextOrder::Before
                },
            },
        }
    }
}

impl UnityDapBinary {
    /// Tells whether `self` is strictly below `other`, that is, whether
    /// `other` is to be tried first.
    pub fn is_below(&self, other: &UnityDapBinary) -> (r: bool)
        ensures
            r == binary_lt(self@, other@),
    {
        match order_of(self.dir_name.as_str(), other.dir_name.as_str()) {
            TextOrder::Before => true,
            TextOrder::After => {
                proof {
                    lemma_lex_lt_total(self.dir_name@, other.dir_name@);
                }
                false
            },
            TextOrder::Same => {
                proof {
                    lemma_lex_lt_total(self.dir_name@, other.dir_name@);
                }
                self.source.is_below(&other.source)
            },
        }
    }
}

} // verus!
