use vstd::prelude::*;
use crate::attribute::{attribute_at, attribute_outcome, outcome, Attribute, Op};
use crate::directive::directive_at;
use crate::error::{AttributeError, ErrorKind};
use crate::name::{name_at, name_tail};
use crate::token::{is_punct, punct_at, Delimiter, TokenRange, TokenTree};

verus! {

/// The attributes of one element: the tokens inside its parentheses, the
/// span of each attribute between top-level commas, and each attribute as
/// parsed, or its diagnostic. Attributes are parsed independently of each
/// other, so one that fails leaves its siblings whole.
#[derive(Debug)]
pub struct AttributeList {
    pub content: Vec<TokenTree>,
    pub segments: Vec<TokenRange>,
    pub attributes: Vec<Result<Attribute, AttributeError>>,
}

/// `segs` cuts `ts` at each comma: consecutive spans separated by exactly
/// one comma each, covering all of `ts`, none holding a comma.
pub open spec fn comma_split(ts: Seq<TokenTree>, segs: Seq<TokenRange>) -> bool {
    &&& segs.len() >= 1
    &&& segs[0].start == 0
    &&& segs.last().end == ts.len()
    &&& forall|k: int|
        0 <= k < segs.len() ==> #[trigger] segs[k].start <= segs[k].end <= ts.len()
    &&& forall|k: int|
        0 <= k < segs.len() - 1 ==> is_punct(ts[#[trigger] segs[k].end as int], ',')
            && segs[k + 1].start == segs[k].end + 1
    &&& forall|k: int, p: int|
        0 <= k < segs.len() && #[trigger] segs[k].start <= p < segs[k].end ==> !is_punct(
            #[trigger] ts[p],
            ',',
        )
}

/// `a` is the attribute spanning `seg` of `ts`, as parsed, or its diagnostic.
pub open spec fn parsed_as(ts: Seq<TokenTree>, seg: TokenRange, a: Result<Attribute, AttributeError>) -> bool {
    match attribute_at(ts, seg.start as int, seg.end as int) {
        Ok(p) => a is Ok && a->Ok_0.ty@ == p.0 && a->Ok_0.equals_at == p.1
            && a->Ok_0.expr == (TokenRange { start: (p.1 + 1) as usize, end: seg.end }),
        Err(e) => a is Err && a->Err_0@ == e,
    }
}

/// Cuts the tokens at each comma. Groups are single tokens, so only commas
/// outside any bracket cut.
pub fn split_at_commas(ts: &Vec<TokenTree>) -> (r: Vec<TokenRange>)
    ensures
        comma_split(ts@, r@),
{
    let mut segs: Vec<TokenRange> = Vec::new();
    let mut start: usize = 0;
    let mut i: usize = 0;
    while i < ts.len()
        invariant
            start <= i <= ts@.len(),
            segs@.len() == 0 ==> start == 0,
            segs@.len() > 0 ==> segs@[0].start == 0 && start == segs@.last().end + 1,
            forall|k: int|
                0 <= k < segs@.len() ==> #[trigger] segs@[k].start <= segs@[k].end < ts@.len()
                    && is_punct(ts@[segs@[k].end as int], ','),
            forall|k: int|
                0 <= k < segs@.len() - 1 ==> #[trigger] segs@[k + 1].start == segs@[k].end + 1,
            forall|k: int, p: int|
                0 <= k < segs@.len() && #[trigger] segs@[k].start <= p < segs@[k].end ==> !is_punct(
                    #[trigger] ts@[p],
                    ',',
                ),
            forall|p: int| start <= p < i ==> !is_punct(#[trigger] ts@[p], ','),
        decreases ts@.len() - i,
    {
        if punct_at(ts, i, ts.len(), ',') {
            segs.push(TokenRange { start, end: i });
            start = i + 1;
        }
        i = i + 1;
    }
    let ghost before = segs@;
    segs.push(TokenRange { start, end: ts.len() });
    assert forall|k: int| 0 <= k < segs@.len() - 1 implies is_punct(ts@[#[trigger] segs@[k].end as int], ',')
        && segs@[k + 1].start == segs@[k].end + 1 by {
        assert(segs@[k] == before[k]);
        assert(before[k].start <= before[k].end);
        assert(before[k].end < ts@.len() && is_punct(ts@[before[k].end as int], ','));
        if k < before.len() - 1 {
            assert(segs@[k + 1] == before[k + 1]);
        } else {
            assert(segs@[k + 1] == TokenRange { start, end: ts.len() });
            assert(before.last() == before[k]);
        }
    }
    assert forall|k: int, p: int|
        0 <= k < segs@.len() && #[trigger] segs@[k].start <= p < segs@[k].end implies !is_punct(
            #[trigger] ts@[p],
            ',',
        ) by {
        if k < before.len() {
            assert(segs@[k] == before[k]);
        }
    }
    segs
}

impl AttributeList {
    /// The list is cut at its commas and each span holds its attribute as
    /// parsed.
    pub open spec fn wf(&self) -> bool {
        &&& comma_split(self.content@, self.segments@)
        &&& self.attributes@.len() == self.segments@.len()
        &&& forall|k: int|
            0 <= k < self.segments@.len() ==> parsed_as(
                self.content@,
                #[trigger] self.segments@[k],
                self.attributes@[k],
            )
    }

    /// Parses a parenthesized, comma-separated list of attributes. Only a
    /// token that is not a parenthesized group fails the whole list; each
    /// attribute's own diagnostic stays with that attribute.
    pub fn parse(input: TokenTree) -> (r: Result<AttributeList, AttributeError>)
        ensures
            r is Ok <==> (input is Group && input->Group_0 == Delimiter::Parenthesis),
            r is Ok ==> r->Ok_0.wf() && r->Ok_0.content@ == input->Group_1@,
            r is Err ==> r->Err_0@ == (ErrorKind::ExpectedParens, 0int, Seq::<char>::empty()),
    {
        let content = match input {
            TokenTree::Group(Delimiter::Parenthesis, content) => content,
            _ => {
                return Err(AttributeError::new(ErrorKind::ExpectedParens, 0));
            },
        };
        let segments = split_at_commas(&content);
        let mut attributes: Vec<Result<Attribute, AttributeError>> = Vec::new();
        let mut k: usize = 0;
        while k < segments.len()
            invariant
                k <= segments@.len(),
                comma_split(content@, segments@),
                attributes@.len() == k,
                forall|m: int|
                    0 <= m < k ==> parsed_as(content@, #[trigger] segments@[m], attributes@[m]),
            decreases segments@.len() - k,
        {
            let seg = segments[k];
            assert(seg.start <= seg.end <= content@.len());
            attributes.push(Attribute::parse(&content, seg.start, seg.end));
            k = k + 1;
        }
        Ok(AttributeList { content, segments, attributes })
    }

    /// Lowers every attribute, in source order: one instruction group, or
    /// one diagnostic, for each.
    pub fn lower(&self) -> (r: Vec<Result<Vec<Op>, AttributeError>>)
        requires
            self.wf(),
        ensures
            r@.len() == self.segments@.len(),
            forall|k: int|
                0 <= k < r@.len() ==> outcome(#[trigger] r@[k]) == attribute_outcome(
                    self.content@,
                    self.segments@[k].start as int,
                    self.segments@[k].end as int,
                ),
    {
        let mut out: Vec<Result<Vec<Op>, AttributeError>> = Vec::new();
        let mut k: usize = 0;
        while k < self.attributes.len()
            invariant
                self.wf(),
                k <= self.attributes@.len(),
                out@.len() == k,
                forall|m: int|
                    0 <= m < k ==> outcome(#[trigger] out@[m]) == attribute_outcome(
                        self.content@,
                        self.segments@[m].start as int,
                        self.segments@[m].end as int,
                    ),
            decreases self.attributes@.len() - k,
        {
            assert(parsed_as(self.content@, self.segments@[k as int], self.attributes@[k as int]));
            let r = match &self.attributes[k] {
                Ok(a) => a.lower(),
                Err(e) => Err(AttributeError { kind: e.kind, at: e.at, name: e.name.clone() }),
            };
            out.push(r);
            k = k + 1;
        }
        out
    }
}

proof fn lemma_tail_local(ts1: Seq<TokenTree>, ts2: Seq<TokenTree>, hi: int, j: int)
    requires
        0 <= j,
        hi <= ts1.len(),
        hi <= ts2.len(),
        forall|p: int| j <= p < hi ==> ts1[p] == ts2[p],
    ensures
        name_tail(ts1, hi, j) == name_tail(ts2, hi, j),
    decreases hi - j,
{
    if j + 1 < hi {
        lemma_tail_local(ts1, ts2, hi, j + 2);
    }
}

proof fn lemma_tail_end(ts: Seq<TokenTree>, hi: int, j: int)
    ensures
        name_tail(ts, hi, j) is Ok ==> name_tail(ts, hi, j)->Ok_0.1 >= j,
    decreases hi - j,
{
    if j + 1 < hi {
        lemma_tail_end(ts, hi, j + 2);
    }
}

/// An attribute's instruction group, or its diagnostic, depends on the tokens
/// of its own span alone: two inputs that agree there lower it alike,
/// whatever its neighbours hold, a neighbour that fails included.
pub proof fn lemma_attribute_independent(ts1: Seq<TokenTree>, ts2: Seq<TokenTree>, lo: int, hi: int)
    requires
        0 <= lo <= hi,
        hi <= ts1.len(),
        hi <= ts2.len(),
        ts1.subrange(lo, hi) == ts2.subrange(lo, hi),
    ensures
        attribute_outcome(ts1, lo, hi) == attribute_outcome(ts2, lo, hi),
{
    assert forall|p: int| lo <= p < hi implies ts1[p] == ts2[p] by {
        assert(ts1.subrange(lo, hi)[p - lo] == ts1[p]);
        assert(ts2.subrange(lo, hi)[p - lo] == ts2[p]);
    }
    lemma_tail_end(ts1, hi, lo + 1);
    lemma_tail_local(ts1, ts2, hi, lo + 1);
    assert(name_at(ts1, hi, lo) == name_at(ts2, hi, lo));
    assert(directive_at(ts1, hi, lo) == directive_at(ts2, hi, lo));
    assert(attribute_at(ts1, lo, hi) == attribute_at(ts2, lo, hi));
}

} // verus!
