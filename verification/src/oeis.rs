//! The wire model of an OEIS record and its decoding into a typed
//! domain model.
//!
//! An [`OeisEntry`] is the loosely typed shape the lookup service answers
//! with: the sequence terms and the keyword tags are comma-joined strings,
//! the prose sections are lists of lines. Decoding it into an
//! [`OeisSequence`] is a pure, deterministic transformation that either
//! succeeds completely or fails on the first offending token.

use vstd::prelude::*;

use crate::error::DecodeError;
use crate::keyword::Keyword;
use crate::term::is_int_token;
use crate::term::joined_terms;
use crate::term::lemma_terms_round_trip;
use crate::term::parse_term;
use crate::term::token_val;
use crate::term::Term;
use crate::text::comma_tokens;
use crate::text::lemma_nonempty_segs_add;
use crate::text::lemma_nonempty_segs_mid;
use crate::text::lemma_nonempty_segs_single;
use crate::text::nonempty_segs;
use crate::text::split_commas;
use crate::text::split_str_commas;
use crate::text::views_of;

verus! {

/// Raw JSON representation of a single OEIS sequence entry, with every
/// field already carried as a plain value.
#[derive(Debug, Clone)]
pub struct OeisEntry {
    /// The A-number (e.g. 250000 for A250000).
    pub number: u64,
    /// Old-style handbook ID. Only present for older sequences.
    pub id: Option<String>,
    /// Comma-separated sequence values.
    pub data: String,
    /// Human-readable name/description of the sequence.
    pub name: String,
    /// Commentary and observations about the sequence.
    pub comment: Vec<String>,
    /// Bibliographic references (books, papers).
    pub reference: Vec<String>,
    /// URLs and resource links.
    pub link: Vec<String>,
    /// Mathematical formulas and bounds.
    pub formula: Vec<String>,
    /// Worked examples illustrating the sequence.
    pub example: Vec<String>,
    /// Maple code.
    pub maple: Vec<String>,
    /// Mathematica code.
    pub mathematica: Vec<String>,
    /// Programs in other languages.
    pub program: Vec<String>,
    /// Cross-references to related sequences.
    pub xref: Vec<String>,
    /// Comma-separated keyword tags.
    pub keyword: String,
    /// Offset information.
    pub offset: String,
    /// Author attribution.
    pub author: String,
    /// Extension and edit history entries.
    pub ext: Vec<String>,
    /// Number of references.
    pub references: u64,
    /// Revision number.
    pub revision: u64,
    /// Last modification timestamp (ISO 8601).
    pub time: String,
    /// Creation timestamp (ISO 8601).
    pub created: String,
}

/// An OEIS sequence in a form convenient for manipulation.
#[derive(Debug, Clone)]
pub struct OeisSequence {
    /// The A-number (e.g. 250000 for A250000).
    pub number: u64,
    /// Old-style handbook ID.
    pub id: Option<String>,
    /// The sequence values.
    pub data: Vec<Term>,
    /// Human-readable name/description.
    pub name: String,
    /// Commentary and observations, newline-joined.
    pub comment: String,
    /// Bibliographic references, newline-joined.
    pub reference: String,
    /// URLs and resource links, newline-joined.
    pub link: String,
    /// Mathematical formulas and bounds, newline-joined.
    pub formula: String,
    /// Worked examples, newline-joined.
    pub example: String,
    /// Maple code, newline-joined.
    pub maple: String,
    /// Mathematica code, newline-joined.
    pub mathematica: String,
    /// Programs in other languages, newline-joined.
    pub program: String,
    /// Cross-references to related sequences, newline-joined.
    pub xref: String,
    /// Keyword tags, in wire order, duplicates preserved.
    pub keyword: Vec<Keyword>,
    /// Offset information.
    pub offset: String,
    /// Author attribution.
    pub author: String,
    /// Extension and edit history, newline-joined.
    pub ext: String,
    /// Number of references.
    pub references: u64,
    /// Revision number.
    pub revision: u64,
    /// Last modification timestamp (ISO 8601).
    pub time: String,
    /// Creation timestamp (ISO 8601).
    pub created: String,
}

/// Every token of the terms field is a well-formed integer token.
pub open spec fn data_ok(s: Seq<char>) -> bool {
    forall|i: int| 0 <= i < comma_tokens(s).len() ==> is_int_token(#[trigger] comma_tokens(s)[i])
}

/// `ts` are the decoded terms of the terms field `s`: one well-formed term
/// per token, denoting the token's value.
pub open spec fn terms_match(ts: Seq<Term>, s: Seq<char>) -> bool {
    &&& ts.len() == comma_tokens(s).len()
    &&& forall|i: int|
        0 <= i < ts.len() ==> (#[trigger] ts[i]).well_formed() && ts[i].value() == token_val(
            comma_tokens(s)[i],
        )
}

/// Token `i` of the terms field is its first invalid one, and `w` is it.
pub open spec fn data_error_at(s: Seq<char>, w: Seq<char>, i: int) -> bool {
    &&& 0 <= i < comma_tokens(s).len()
    &&& !is_int_token(comma_tokens(s)[i])
    &&& w == comma_tokens(s)[i]
    &&& forall|j: int| 0 <= j < i ==> is_int_token(#[trigger] comma_tokens(s)[j])
}

/// `w` is the first invalid token of the terms field `s`.
pub open spec fn data_error_witness(s: Seq<char>, w: Seq<char>) -> bool {
    exists|i: int| data_error_at(s, w, i)
}

/// Every token of the keyword field is in the vocabulary.
pub open spec fn keywords_ok(s: Seq<char>) -> bool {
    forall|i: int|
        0 <= i < comma_tokens(s).len() ==> Keyword::from_canonical(
            #[trigger] comma_tokens(s)[i],
        ) is Some
}

/// `ks` are the decoded tags of the keyword field `s`, in wire order with
/// duplicates preserved.
pub open spec fn keywords_match(ks: Seq<Keyword>, s: Seq<char>) -> bool {
    &&& ks.len() == comma_tokens(s).len()
    &&& forall|i: int|
        0 <= i < ks.len() ==> Keyword::from_canonical(#[trigger] comma_tokens(s)[i]) == Some(
            ks[i],
        )
}

/// Token `i` of the keyword field is its first unrecognized one, and `w` is it.
pub open spec fn keyword_error_at(s: Seq<char>, w: Seq<char>, i: int) -> bool {
    &&& 0 <= i < comma_tokens(s).len()
    &&& Keyword::from_canonical(comma_tokens(s)[i]) is None
    &&& w == comma_tokens(s)[i]
    &&& forall|j: int|
        0 <= j < i ==> Keyword::from_canonical(#[trigger] comma_tokens(s)[j]) is Some
}

/// `w` is the first unrecognized token of the keyword field `s`.
pub open spec fn keyword_error_witness(s: Seq<char>, w: Seq<char>) -> bool {
    exists|i: int| keyword_error_at(s, w, i)
}

/// Split the comma-joined terms field and parse every non-empty segment as
/// an arbitrary-precision integer. The first segment that is no integer is
/// a fatal error carrying that segment; nothing is skipped or coerced.
pub fn parse_data(s: &str) -> (r: Result<Vec<Term>, DecodeError>)
    ensures
        match r {
            Ok(ts) => data_ok(s@) && terms_match(ts@, s@),
            Err(DecodeError::InvalidTerm(w)) => !data_ok(s@) && data_error_witness(s@, w@),
            Err(_) => false,
        },
{
    let segs = split_str_commas(s);
    let ghost all = split_commas(s@);
    let mut terms: Vec<Term> = Vec::new();
    let mut i: usize = 0;
    proof {
        assert(all.take(0) =~~= Seq::<Seq<char>>::empty());
    }
    while i < segs.len()
        invariant
            views_of(segs@) == all,
            all == split_commas(s@),
            segs@.len() == all.len(),
            i <= segs@.len(),
            terms@.len() == nonempty_segs(all.take(i as int)).len(),
            forall|j: int|
                0 <= j < terms@.len() ==> (#[trigger] terms@[j]).well_formed() && terms@[j].value()
                    == token_val(nonempty_segs(all.take(i as int))[j]),
            forall|j: int|
                0 <= j < nonempty_segs(all.take(i as int)).len() ==> is_int_token(
                    #[trigger] nonempty_segs(all.take(i as int))[j],
                ),
        decreases segs@.len() - i,
    {
        proof {
            assert(segs@[i as int]@ == all[i as int]);
            assert(all.take(i + 1 as int) =~~= all.take(i as int) + seq![all[i as int]]);
            lemma_nonempty_segs_add(all.take(i as int), seq![all[i as int]]);
            lemma_nonempty_segs_single(all[i as int]);
        }
        if !segs[i].as_str().is_empty() {
            match parse_term(segs[i].as_str()) {
                Ok(t) => {
                    terms.push(t);
                },
                Err(err) => {
                    proof {
                        let idx = nonempty_segs(all.take(i as int)).len() as int;
                        lemma_nonempty_segs_mid(all, i as int);
                        assert(comma_tokens(s@)[idx] == all[i as int]);
                        assert forall|j: int| 0 <= j < idx implies is_int_token(
                            #[trigger] comma_tokens(s@)[j],
                        ) by {
                            assert(comma_tokens(s@)[j] == nonempty_segs(all.take(i as int))[j]);
                        }
                        assert(data_error_at(s@, all[i as int], idx));
                    }
                    return Err(err);
                },
            }
        }
        i += 1;
    }
    proof {
        assert(all.take(segs@.len() as int) =~~= all);
    }
    Ok(terms)
}

/// Split the comma-joined keyword field and map every non-empty segment
/// through the vocabulary. The first unrecognized segment is a fatal error
/// carrying that segment; nothing is silently dropped.
pub fn parse_keywords(s: &str) -> (r: Result<Vec<Keyword>, DecodeError>)
    ensures
        match r {
            Ok(ks) => keywords_ok(s@) && keywords_match(ks@, s@),
            Err(DecodeError::UnknownKeyword(w)) => !keywords_ok(s@) && keyword_error_witness(
                s@,
                w@,
            ),
            Err(_) => false,
        },
{
    let segs = split_str_commas(s);
    let ghost all = split_commas(s@);
    let mut keywords: Vec<Keyword> = Vec::new();
    let mut i: usize = 0;
    proof {
        assert(all.take(0) =~~= Seq::<Seq<char>>::empty());
    }
    while i < segs.len()
        invariant
            views_of(segs@) == all,
            all == split_commas(s@),
            segs@.len() == all.len(),
            i <= segs@.len(),
            keywords@.len() == nonempty_segs(all.take(i as int)).len(),
            forall|j: int|
                0 <= j < keywords@.len() ==> Keyword::from_canonical(
                    nonempty_segs(all.take(i as int))[j],
                ) == Some(#[trigger] keywords@[j]),
            forall|j: int|
                0 <= j < nonempty_segs(all.take(i as int)).len() ==> Keyword::from_canonical(
                    #[trigger] nonempty_segs(all.take(i as int))[j],
                ) is Some,
        decreases segs@.len() - i,
    {
        proof {
            assert(segs@[i as int]@ == all[i as int]);
            assert(all.take(i + 1 as int) =~~= all.take(i as int) + seq![all[i as int]]);
            lemma_nonempty_segs_add(all.take(i as int), seq![all[i as int]]);
            lemma_nonempty_segs_single(all[i as int]);
        }
        if !segs[i].as_str().is_empty() {
            match Keyword::from_str(segs[i].as_str()) {
                Ok(k) => {
                    keywords.push(k);
                },
                Err(err) => {
                    proof {
                        let idx = nonempty_segs(all.take(i as int)).len() as int;
                        lemma_nonempty_segs_mid(all, i as int);
                        assert(comma_tokens(s@)[idx] == all[i as int]);
                        assert forall|j: int| 0 <= j < idx implies Keyword::from_canonical(
                            #[trigger] comma_tokens(s@)[j],
                        ) is Some by {
                            assert(comma_tokens(s@)[j] == nonempty_segs(all.take(i as int))[j]);
                        }
                        assert(keyword_error_at(s@, all[i as int], idx));
                    }
                    return Err(DecodeError::UnknownKeyword(err.0));
                },
            }
        }
        i += 1;
    }
    proof {
        assert(all.take(segs@.len() as int) =~~= all);
    }
    Ok(keywords)
}

/// The lines joined with `\n`, in original order; no lines yield the
/// empty string.
pub open spec fn joined_lines(ls: Seq<Seq<char>>) -> Seq<char>
    decreases ls.len(),
{
    if ls.len() == 0 {
        Seq::<char>::empty()
    } else if ls.len() == 1 {
        ls[0]
    } else {
        joined_lines(ls.drop_last()) + seq!['\n'] + ls.last()
    }
}

/// Join the lines of a multi-line prose field with `\n`, keeping their order.
pub fn join_lines(v: Vec<String>) -> (r: String)
    ensures
        r@ == joined_lines(views_of(v@)),
{
    let mut out = String::new();
    let ghost ls = views_of(v@);
    proof {
        assert(ls.take(0) =~~= Seq::<Seq<char>>::empty());
    }
    let mut i: usize = 0;
    while i < v.len()
        invariant
            ls == views_of(v@),
            ls.len() == v@.len(),
            i <= v@.len(),
            out@ == joined_lines(ls.take(i as int)),
        decreases v@.len() - i,
    {
        if i > 0 {
            proof {
                reveal_strlit("\n");
                assert("\n"@ =~= seq!['\n']);
            }
            out.append("\n");
        }
        out.append(v[i].as_str());
        proof {
            assert(ls.take(i + 1 as int).drop_last() =~= ls.take(i as int));
            assert(ls.take(i + 1 as int).last() == ls[i as int]);
        }
        i += 1;
    }
    proof {
        assert(ls.take(v@.len() as int) =~= ls);
    }
    out
}

/// The wire record decodes without error: every terms token is an integer
/// and every keyword token is in the vocabulary.
pub open spec fn entry_ok(e: OeisEntry) -> bool {
    data_ok(e.data@) && keywords_ok(e.keyword@)
}

/// `q` is the decoding of the wire record `e`, field by field.
pub open spec fn decodes_to(e: OeisEntry, q: OeisSequence) -> bool {
    &&& q.number == e.number
    &&& q.id == e.id
    &&& terms_match(q.data@, e.data@)
    &&& q.name == e.name
    &&& q.comment@ == joined_lines(views_of(e.comment@))
    &&& q.reference@ == joined_lines(views_of(e.reference@))
    &&& q.link@ == joined_lines(views_of(e.link@))
    &&& q.formula@ == joined_lines(views_of(e.formula@))
    &&& q.example@ == joined_lines(views_of(e.example@))
    &&& q.maple@ == joined_lines(views_of(e.maple@))
    &&& q.mathematica@ == joined_lines(views_of(e.mathematica@))
    &&& q.program@ == joined_lines(views_of(e.program@))
    &&& q.xref@ == joined_lines(views_of(e.xref@))
    &&& keywords_match(q.keyword@, e.keyword@)
    &&& q.offset == e.offset
    &&& q.author == e.author
    &&& q.ext@ == joined_lines(views_of(e.ext@))
    &&& q.references == e.references
    &&& q.revision == e.revision
    &&& q.time == e.time
    &&& q.created == e.created
}

/// The error a failed decoding of `e` reports: the first invalid terms
/// token, or, with all terms tokens valid, the first unrecognized keyword.
pub open spec fn decode_error_for(e: OeisEntry, d: DecodeError) -> bool {
    match d {
        DecodeError::InvalidTerm(w) => !data_ok(e.data@) && data_error_witness(e.data@, w@),
        DecodeError::UnknownKeyword(w) => data_ok(e.data@) && !keywords_ok(e.keyword@)
            && keyword_error_witness(e.keyword@, w@),
    }
}

impl OeisSequence {
    /// Every stored term is in canonical form.
    pub open spec fn well_formed(self) -> bool {
        forall|i: int| 0 <= i < self.data@.len() ==> (#[trigger] self.data@[i]).well_formed()
    }

    /// Decode a wire record into the domain model: parse the terms and the
    /// keywords, join each multi-line prose field with `\n`, and pass every
    /// other field through unchanged. Decoding is all-or-nothing.
    pub fn from_entry(e: OeisEntry) -> (r: Result<OeisSequence, DecodeError>)
        ensures
            match r {
                Ok(q) => entry_ok(e) && decodes_to(e, q) && q.well_formed(),
                Err(d) => !entry_ok(e) && decode_error_for(e, d),
            },
    {
        let data = match parse_data(e.data.as_str()) {
            Ok(d) => d,
            Err(err) => {
                return Err(err);
            },
        };
        let keyword = match parse_keywords(e.keyword.as_str()) {
            Ok(k) => k,
            Err(err) => {
                return Err(err);
            },
        };
        Ok(
            OeisSequence {
                number: e.number,
                id: e.id,
                data,
                name: e.name,
                comment: join_lines(e.comment),
                reference: join_lines(e.reference),
                link: join_lines(e.link),
                formula: join_lines(e.formula),
                example: join_lines(e.example),
                maple: join_lines(e.maple),
                mathematica: join_lines(e.mathematica),
                program: join_lines(e.program),
                xref: join_lines(e.xref),
                keyword,
                offset: e.offset,
                author: e.author,
                ext: join_lines(e.ext),
                references: e.references,
                revision: e.revision,
                time: e.time,
                created: e.created,
            },
        )
    }
}

/// Round trip through the decoder: a comma-joined rendering of well-formed
/// terms always satisfies [`data_ok`], and any terms that satisfy the
/// decoder's contract [`terms_match`] on it are exactly the original terms.
pub proof fn lemma_decode_encode_identity(ts: Seq<Term>, us: Seq<Term>)
    requires
        forall|i: int| 0 <= i < ts.len() ==> (#[trigger] ts[i]).well_formed(),
        terms_match(us, joined_terms(ts, seq![','])),
    ensures
        data_ok(joined_terms(ts, seq![','])),
        us.len() == ts.len(),
        forall|i: int|
            0 <= i < ts.len() ==> (#[trigger] us[i]).negative == ts[i].negative && us[i].digits@
                == ts[i].digits@,
{
    crate::term::lemma_encode_tokens(ts);
    lemma_terms_round_trip(ts, us);
}

} // verus!
