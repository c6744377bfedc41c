//! The closed OEIS keyword vocabulary and its bijective string mapping.

use vstd::prelude::*;

use crate::text::str_eq;

verus! {

/// An OEIS keyword tag.
#[derive(Debug, Clone, Copy, PartialEq, Eq, Hash, Structural)]
pub enum Keyword {
    /// Sequence is dependent on base used.
    Base,
    /// Sequence is too short to do any analysis with.
    Bref,
    /// Recently modified (assigned automatically).
    Changed,
    /// A continued fraction expansion of a number.
    Cofr,
    /// A decimal expansion of a number.
    Cons,
    /// An important sequence.
    Core,
    /// An erroneous or duplicated sequence.
    Dead,
    /// An unimportant sequence.
    Dumb,
    /// Duplicate of another sequence.
    Dupe,
    /// It is easy to produce terms of this sequence.
    Easy,
    /// A fixed sequence for some transformation.
    Eigen,
    /// A finite sequence.
    Fini,
    /// Numerators or denominators of a sequence of rationals.
    Frac,
    /// All terms of the sequence are given (implies `Fini`).
    Full,
    /// Next term is not known and may be hard to find.
    Hard,
    /// A sequence worth listening to.
    Hear,
    /// Less interesting; unlikely to be the intended match.
    Less,
    /// A sequence with an interesting graph.
    Look,
    /// More terms are needed.
    More,
    /// Multiplicative: a(mn) = a(m)*a(n) if gcd(m,n) = 1.
    Mult,
    /// Recently added (assigned automatically).
    New,
    /// An exceptionally nice sequence.
    Nice,
    /// All terms are nonnegative.
    Nonn,
    /// Obscure, better description needed.
    Obsc,
    /// Included on probation; may be deleted later.
    Probation,
    /// Sequence contains negative numbers.
    Sign,
    /// An irregular (or funny-shaped) triangle of numbers read by rows.
    Tabf,
    /// A regular triangle or square array read by rows or antidiagonals.
    Tabl,
    /// Not yet edited; requires editorial review.
    Uned,
    /// Little is known; an unsolved problem.
    Unkn,
    /// Counts walks or self-avoiding paths.
    Walk,
    /// Depends on words for the sequence in some language.
    Word,
}

impl Keyword {
    /// The canonical lowercase text of this tag.
    pub open spec fn canonical(self) -> Seq<char> {
        match self {
            Keyword::Base => "base"@,
            Keyword::Bref => "bref"@,
            Keyword::Changed => "changed"@,
            Keyword::Cofr => "cofr"@,
            Keyword::Cons => "cons"@,
            Keyword::Core => "core"@,
            Keyword::Dead => "dead"@,
            Keyword::Dumb => "dumb"@,
            Keyword::Dupe => "dupe"@,
            Keyword::Easy => "easy"@,
            Keyword::Eigen => "eigen"@,
            Keyword::Fini => "fini"@,
            Keyword::Frac => "frac"@,
            Keyword::Full => "full"@,
            Keyword::Hard => "hard"@,
            Keyword::Hear => "hear"@,
            Keyword::Less => "less"@,
            Keyword::Look => "look"@,
            Keyword::More => "more"@,
            Keyword::Mult => "mult"@,
            Keyword::New => "new"@,
            Keyword::Nice => "nice"@,
            Keyword::Nonn => "nonn"@,
            Keyword::Obsc => "obsc"@,
            Keyword::Probation => "probation"@,
            Keyword::Sign => "sign"@,
            Keyword::Tabf => "tabf"@,
            Keyword::Tabl => "tabl"@,
            Keyword::Uned => "uned"@,
            Keyword::Unkn => "unkn"@,
            Keyword::Walk => "walk"@,
            Keyword::Word => "word"@,
        }
    }

    /// The tag, if any, whose canonical text is `s`. Exact match only:
    /// no case folding, no trimming.
    pub open spec fn from_canonical(s: Seq<char>) -> Option<Keyword> {
        if s == "base"@ {
            Some(Keyword::Base)
        } else if s == "bref"@ {
            Some(Keyword::Bref)
        } else if s == "changed"@ {
            Some(Keyword::Changed)
        } else if s == "cofr"@ {
            Some(Keyword::Cofr)
        } else if s == "cons"@ {
            Some(Keyword::Cons)
        } else if s == "core"@ {
            Some(Keyword::Core)
        } else if s == "dead"@ {
            Some(Keyword::Dead)
        } else if s == "dumb"@ {
            Some(Keyword::Dumb)
        } else if s == "dupe"@ {
            Some(Keyword::Dupe)
        } else if s == "easy"@ {
            Some(Keyword::Easy)
        } else if s == "eigen"@ {
            Some(Keyword::Eigen)
        } else if s == "fini"@ {
            Some(Keyword::Fini)
        } else if s == "frac"@ {
            Some(Keyword::Frac)
        } else if s == "full"@ {
            Some(Keyword::Full)
        } else if s == "hard"@ {
            Some(Keyword::Hard)
        } else if s == "hear"@ {
            Some(Keyword::Hear)
        } else if s == "less"@ {
            Some(Keyword::Less)
        } else if s == "look"@ {
            Some(Keyword::Look)
        } else if s == "more"@ {
            Some(Keyword::More)
        } else if s == "mult"@ {
            Some(Keyword::Mult)
        } else if s == "new"@ {
            Some(Keyword::New)
        } else if s == "nice"@ {
            Some(Keyword::Nice)
        } else if s == "nonn"@ {
            Some(Keyword::Nonn)
        } else if s == "obsc"@ {
            Some(Keyword::Obsc)
        } else if s == "probation"@ {
            Some(Keyword::Probation)
        } else if s == "sign"@ {
            Some(Keyword::Sign)
        } else if s == "tabf"@ {
            Some(Keyword::Tabf)
        } else if s == "tabl"@ {
            Some(Keyword::Tabl)
        } else if s == "uned"@ {
            Some(Keyword::Uned)
        } else if s == "unkn"@ {
            Some(Keyword::Unkn)
        } else if s == "walk"@ {
            Some(Keyword::Walk)
        } else if s == "word"@ {
            Some(Keyword::Word)
        } else {
            None
        }
    }

    /// The canonical lowercase string form of this tag.
    pub fn as_str(self) -> (r: &'static str)
        ensures
            r@ == self.canonical(),
    {
        match self {
            Keyword::Base => "base",
            Keyword::Bref => "bref",
            Keyword::Changed => "changed",
            Keyword::Cofr => "cofr",
            Keyword::Cons => "cons",
            Keyword::Core => "core",
            Keyword::Dead => "dead",
            Keyword::Dumb => "dumb",
            Keyword::Dupe => "dupe",
            Keyword::Easy => "easy",
            Keyword::Eigen => "eigen",
            Keyword::Fini => "fini",
            Keyword::Frac => "frac",
            Keyword::Full => "full",
            Keyword::Hard => "hard",
            Keyword::Hear => "hear",
            Keyword::Less => "less",
            Keyword::Look => "look",
            Keyword::More => "more",
            Keyword::Mult => "mult",
            Keyword::New => "new",
            Keyword::Nice => "nice",
            Keyword::Nonn => "nonn",
            Keyword::Obsc => "obsc",
            Keyword::Probation => "probation",
            Keyword::Sign => "sign",
            Keyword::Tabf => "tabf",
            Keyword::Tabl => "tabl",
            Keyword::Uned => "uned",
            Keyword::Unkn => "unkn",
            Keyword::Walk => "walk",
            Keyword::Word => "word",
        }
    }

    /// Parse a tag from its canonical string form; an unrecognized string is
    /// an error carrying that string, never a silent drop.
    pub fn from_str(s: &str) -> (r: Result<Keyword, ParseKeywordError>)
        ensures
            match Keyword::from_canonical(s@) {
                Some(k) => r == Ok::<Keyword, ParseKeywordError>(k),
                None => r matches Err(e) && e.0@ == s@,
            },
    {
        if str_eq(s, "base") {
            Ok(Keyword::Base)
        } else if str_eq(s, "bref") {
            Ok(Keyword::Bref)
        } else if str_eq(s, "changed") {
            Ok(Keyword::Changed)
        } else if str_eq(s, "cofr") {
            Ok(Keyword::Cofr)
        } else if str_eq(s, "cons") {
            Ok(Keyword::Cons)
        } else if str_eq(s, "core") {
            Ok(Keyword::Core)
        } else if str_eq(s, "dead") {
            Ok(Keyword::Dead)
        } else if str_eq(s, "dumb") {
            Ok(Keyword::Dumb)
        } else if str_eq(s, "dupe") {
            Ok(Keyword::Dupe)
        } else if str_eq(s, "easy") {
            Ok(Keyword::Easy)
        } else if str_eq(s, "eigen") {
            Ok(Keyword::Eigen)
        } else if str_eq(s, "fini") {
            Ok(Keyword::Fini)
        } else if str_eq(s, "frac") {
            Ok(Keyword::Frac)
        } else if str_eq(s, "full") {
            Ok(Keyword::Full)
        } else if str_eq(s, "hard") {
            Ok(Keyword::Hard)
        } else if str_eq(s, "hear") {
            Ok(Keyword::Hear)
        } else if str_eq(s, "less") {
            Ok(Keyword::Less)
        } else if str_eq(s, "look") {
            Ok(Keyword::Look)
        } else if str_eq(s, "more") {
            Ok(Keyword::More)
        } else if str_eq(s, "mult") {
            Ok(Keyword::Mult)
        } else if str_eq(s, "new") {
            Ok(Keyword::New)
        } else if str_eq(s, "nice") {
            Ok(Keyword::Nice)
        } else if str_eq(s, "nonn") {
            Ok(Keyword::Nonn)
        } else if str_eq(s, "obsc") {
            Ok(Keyword::Obsc)
        } else if str_eq(s, "probation") {
            Ok(Keyword::Probation)
        } else if str_eq(s, "sign") {
            Ok(Keyword::Sign)
        } else if str_eq(s, "tabf") {
            Ok(Keyword::Tabf)
        } else if str_eq(s, "tabl") {
            Ok(Keyword::Tabl)
        } else if str_eq(s, "uned") {
            Ok(Keyword::Uned)
        } else if str_eq(s, "unkn") {
            Ok(Keyword::Unkn)
        } else if str_eq(s, "walk") {
            Ok(Keyword::Walk)
        } else if str_eq(s, "word") {
            Ok(Keyword::Word)
        } else {
            Err(ParseKeywordError(s.to_owned()))
        }
    }
}

/// The string that failed to parse as a [`Keyword`].
#[derive(Debug, Clone)]
pub struct ParseKeywordError(pub String);

/// The string mapping is bijective over the vocabulary: parsing the
/// canonical form of any tag yields that tag back.
pub proof fn lemma_keyword_round_trip(k: Keyword)
    ensures
        Keyword::from_canonical(k.canonical()) == Some(k),
{
    reveal_strlit("base");
    reveal_strlit("bref");
    reveal_strlit("changed");
    reveal_strlit("cofr");
    reveal_strlit("cons");
    reveal_strlit("core");
    reveal_strlit("dead");
    reveal_strlit("dumb");
    reveal_strlit("dupe");
    reveal_strlit("easy");
    reveal_strlit("eigen");
    reveal_strlit("fini");
    reveal_strlit("frac");
    reveal_strlit("full");
    reveal_strlit("hard");
    reveal_strlit("hear");
    reveal_strlit("less");
    reveal_strlit("look");
    reveal_strlit("more");
    reveal_strlit("mult");
    reveal_strlit("new");
    reveal_strlit("nice");
    reveal_strlit("nonn");
    reveal_strlit("obsc");
    reveal_strlit("probation");
    reveal_strlit("sign");
    reveal_strlit("tabf");
    reveal_strlit("tabl");
    reveal_strlit("uned");
    reveal_strlit("unkn");
    reveal_strlit("walk");
    reveal_strlit("word");
    assert("base"@ =~= seq!['b', 'a', 's', 'e']);
    assert("bref"@ =~= seq!['b', 'r', 'e', 'f']);
    assert("changed"@ =~= seq!['c', 'h', 'a', 'n', 'g', 'e', 'd']);
    assert("cofr"@ =~= seq!['c', 'o', 'f', 'r']);
    assert("cons"@ =~= seq!['c', 'o', 'n', 's']);
    assert("core"@ =~= seq!['c', 'o', 'r', 'e']);
    assert("dead"@ =~= seq!['d', 'e', 'a', 'd']);
    assert("dumb"@ =~= seq!['d', 'u', 'm', 'b']);
    assert("dupe"@ =~= seq!['d', 'u', 'p', 'e']);
    assert("easy"@ =~= seq!['e', 'a', 's', 'y']);
    assert("eigen"@ =~= seq!['e', 'i', 'g', 'e', 'n']);
    assert("fini"@ =~= seq!['f', 'i', 'n', 'i']);
    assert("frac"@ =~= seq!['f', 'r', 'a', 'c']);
    assert("full"@ =~= seq!['f', 'u', 'l', 'l']);
    assert("hard"@ =~= seq!['h', 'a', 'r', 'd']);
    assert("hear"@ =~= seq!['h', 'e', 'a', 'r']);
    assert("less"@ =~= seq!['l', 'e', 's', 's']);
    assert("look"@ =~= seq!['l', 'o', 'o', 'k']);
    assert("more"@ =~= seq!['m', 'o', 'r', 'e']);
    assert("mult"@ =~= seq!['m', 'u', 'l', 't']);
    assert("new"@ =~= seq!['n', 'e', 'w']);
    assert("nice"@ =~= seq!['n', 'i', 'c', 'e']);
    assert("nonn"@ =~= seq!['n', 'o', 'n', 'n']);
    assert("obsc"@ =~= seq!['o', 'b', 's', 'c']);
    assert("probation"@ =~= seq!['p', 'r', 'o', 'b', 'a', 't', 'i', 'o', 'n']);
    assert("sign"@ =~= seq!['s', 'i', 'g', 'n']);
    assert("tabf"@ =~= seq!['t', 'a', 'b', 'f']);
    assert("tabl"@ =~= seq!['t', 'a', 'b', 'l']);
    assert("uned"@ =~= seq!['u', 'n', 'e', 'd']);
    assert("unkn"@ =~= seq!['u', 'n', 'k', 'n']);
    assert("walk"@ =~= seq!['w', 'a', 'l', 'k']);
    assert("word"@ =~= seq!['w', 'o', 'r', 'd']);
}

} // verus!
