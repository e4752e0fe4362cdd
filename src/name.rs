use vstd::prelude::*;
use crate::error::{AttributeError, ErrorKind};
use crate::token::{
    ident_at, ident_text, is_plain_ident, is_punct, plain_ident_at, punct_at, TokenTree,
};

verus! {

/// A directive or DOM attribute name: a tag identifier followed by any number
/// of hyphen-joined identifiers (`div`, `data-foo`, `aria-described-by`).
#[derive(Debug)]
pub struct AttributeName {
    pub tag: String,
    pub extended: Vec<String>,
}

/// The segments joined by hyphens.
pub open spec fn dashed(segs: Seq<Seq<char>>) -> Seq<char>
    decreases segs.len(),
{
    if segs.len() == 0 {
        Seq::empty()
    } else if segs.len() == 1 {
        segs[0]
    } else {
        dashed(segs.drop_last()) + seq!['-'] + segs.last()
    }
}

/// Prepends `acc` to the segments of a successful parse.
pub open spec fn prefixed(
    acc: Seq<Seq<char>>,
    r: Result<(Seq<Seq<char>>, int), int>,
) -> Result<(Seq<Seq<char>>, int), int> {
    match r {
        Ok(p) => Ok((acc + p.0, p.1)),
        Err(at) => Err(at),
    }
}

/// The hyphen-extension starting at `j`, with tokens bounded by `hi`: the
/// extension's segments and the position after them, or the position of a
/// token after a hyphen that is not a plain identifier.
pub open spec fn name_tail(ts: Seq<TokenTree>, hi: int, j: int) -> Result<
    (Seq<Seq<char>>, int),
    int,
>
    decreases hi - j,
{
    if j < hi && is_punct(ts[j], '-') {
        if j + 1 < hi && ts[j + 1] is Ident && is_plain_ident(ident_text(ts[j + 1])) {
            prefixed(seq![ident_text(ts[j + 1])], name_tail(ts, hi, j + 2))
        } else {
            Err(j + 1)
        }
    } else {
        Ok((Seq::empty(), j))
    }
}

/// A name starting at `i`: an identifier of any spelling, then its
/// hyphen-extension; or the position of the offending token.
pub open spec fn name_at(ts: Seq<TokenTree>, hi: int, i: int) -> Result<(Seq<Seq<char>>, int), int> {
    if 0 <= i < hi && ts[i] is Ident {
        prefixed(seq![ident_text(ts[i])], name_tail(ts, hi, i + 1))
    } else {
        Err(i)
    }
}

/// The tokens that spell a hyphen-extension: a hyphen and an identifier for
/// each segment.
pub open spec fn tail_tokens(segs: Seq<String>) -> Seq<TokenTree>
    decreases segs.len(),
{
    if segs.len() == 0 {
        Seq::empty()
    } else {
        seq![TokenTree::Punct('-'), TokenTree::Ident(segs[0])] + tail_tokens(segs.drop_first())
    }
}

/// The tokens that spell a name from its segments.
pub open spec fn name_tokens(segs: Seq<String>) -> Seq<TokenTree> {
    seq![TokenTree::Ident(segs[0])] + tail_tokens(segs.drop_first())
}

pub open spec fn texts(segs: Seq<String>) -> Seq<Seq<char>> {
    segs.map_values(|s: String| s@)
}

impl View for AttributeName {
    type V = Seq<Seq<char>>;

    open spec fn view(&self) -> Seq<Seq<char>> {
        seq![self.tag@] + self.extended@.map_values(|s: String| s@)
    }
}

impl AttributeName {
    /// Parses a name at `i`, reading no token at or past `hi`; on success also
    /// returns the position after the name.
    pub fn parse(ts: &Vec<TokenTree>, i: usize, hi: usize) -> (r: Result<(AttributeName, usize), AttributeError>)
        requires
            hi <= ts@.len(),
        ensures
            match name_at(ts@, hi as int, i as int) {
                Ok(p) => r is Ok && r->Ok_0.0@ == p.0 && r->Ok_0.1 == p.1,
                Err(at) => r is Err && r->Err_0@ == (ErrorKind::ExpectedIdent, at, Seq::<char>::empty()),
            },
    {
        let first = ident_at(ts, i, hi);
        if first.is_none() {
            return Err(AttributeError::new(ErrorKind::ExpectedIdent, i));
        }
        let tag = first.unwrap();
        assert(i < hi && ts@[i as int] is Ident);
        let mut extended: Vec<String> = Vec::new();
        let mut j: usize = i + 1;
        while punct_at(ts, j, hi, '-')
            invariant
                hi <= ts@.len(),
                i < j <= hi,
                ts@[i as int] is Ident,
                name_tail(ts@, hi as int, i + 1) == prefixed(
                    extended@.map_values(|s: String| s@),
                    name_tail(ts@, hi as int, j as int),
                ),
            decreases hi - j,
        {
            match plain_ident_at(ts, j + 1, hi) {
                Some(s) => {
                    proof {
                        let ghost prev = extended@.map_values(|s: String| s@);
                        let ghost rest = name_tail(ts@, hi as int, j + 2);
                        assert(extended@.push(s).map_values(|s: String| s@) =~= prev + seq![s@]);
                        match rest {
                            Ok(p) => {
                                assert(prev + (seq![s@] + p.0) =~= (prev + seq![s@]) + p.0);
                            },
                            Err(_) => {},
                        }
                    }
                    extended.push(s);
                    j = j + 2;
                },
                None => {
                    assert(name_tail(ts@, hi as int, j as int) == Err::<(Seq<Seq<char>>, int), int>(j + 1));
                    assert(name_tail(ts@, hi as int, i + 1) == Err::<(Seq<Seq<char>>, int), int>(j + 1));
                    assert(name_at(ts@, hi as int, i as int) == Err::<(Seq<Seq<char>>, int), int>(j + 1));
                    return Err(AttributeError::new(ErrorKind::ExpectedIdent, j + 1));
                },
            }
        }
        assert(name_tail(ts@, hi as int, j as int) == Ok::<(Seq<Seq<char>>, int), int>((Seq::empty(), j as int)));
        assert(extended@.map_values(|s: String| s@) + Seq::<Seq<char>>::empty() =~= extended@.map_values(|s: String| s@));
        Ok((AttributeName { tag, extended }, j))
    }

    /// The canonical dashed form, used as the DOM attribute name.
    pub fn to_string(&self) -> (r: String)
        ensures
            r@ == dashed(self@),
    {
        let mut out = self.tag.clone();
        let mut k: usize = 0;
        assert(self@.subrange(0, 1) =~= seq![self.tag@]);
        while k < self.extended.len()
            invariant
                k <= self.extended@.len(),
                out@ == dashed(self@.subrange(0, k + 1)),
            decreases self.extended@.len() - k,
        {
            let ghost before = self@.subrange(0, k + 1);
            proof {
                reveal_strlit("-");
            }
            out.append("-");
            out.append(self.extended[k].as_str());
            k = k + 1;
            assert(self@.subrange(0, k + 1).drop_last() =~= before);
            assert(self@.subrange(0, k + 1).last() == self.extended@[k - 1]@);
        }
        assert(self@.subrange(0, k + 1) =~= self@);
        out
    }
}

proof fn lemma_tail_round_trip(pre: Seq<TokenTree>, segs: Seq<String>)
    requires
        forall|k: int| 0 <= k < segs.len() ==> is_plain_ident(#[trigger] segs[k]@),
    ensures
        name_tail(pre + tail_tokens(segs), (pre + tail_tokens(segs)).len() as int, pre.len() as int)
            == Ok::<(Seq<Seq<char>>, int), int>((texts(segs), (pre + tail_tokens(segs)).len() as int)),
        tail_tokens(segs).len() == 2 * segs.len(),
    decreases segs.len(),
{
    let ts = pre + tail_tokens(segs);
    if segs.len() == 0 {
        assert(texts(segs) =~= Seq::<Seq<char>>::empty());
    } else {
        let rest = segs.drop_first();
        let pre2 = pre + seq![TokenTree::Punct('-'), TokenTree::Ident(segs[0])];
        assert forall|k: int| 0 <= k < rest.len() implies is_plain_ident(#[trigger] rest[k]@) by {
            assert(rest[k] == segs[k + 1]);
        }
        lemma_tail_round_trip(pre2, rest);
        assert(pre2 + tail_tokens(rest) =~= ts);
        assert(ts[pre.len() as int] == TokenTree::Punct('-'));
        assert(ts[pre.len() as int + 1] == TokenTree::Ident(segs[0]));
        assert(seq![segs[0]@] + texts(rest) =~= texts(segs));
    }
}

/// Parsing the hyphenated spelling of a name gives back its segments and
/// consumes every token, so the display form of what is parsed is the
/// segments joined by hyphens.
pub proof fn lemma_name_round_trip(segs: Seq<String>)
    requires
        segs.len() >= 1,
        forall|k: int| 1 <= k < segs.len() ==> is_plain_ident(#[trigger] segs[k]@),
    ensures
        name_at(name_tokens(segs), name_tokens(segs).len() as int, 0) == Ok::<
            (Seq<Seq<char>>, int),
            int,
        >((texts(segs), name_tokens(segs).len() as int)),
        name_tokens(segs).len() == 2 * segs.len() - 1,
{
    let rest = segs.drop_first();
    let pre = seq![TokenTree::Ident(segs[0])];
    assert forall|k: int| 0 <= k < rest.len() implies is_plain_ident(#[trigger] rest[k]@) by {
        assert(rest[k] == segs[k + 1]);
    }
    lemma_tail_round_trip(pre, rest);
    assert(seq![segs[0]@] + texts(rest) =~= texts(segs));
}

} // verus!
