//! The two kinds of property: generators and the political capital that they
//! produce.

use vstd::prelude::*;

use crate::text::same_text;

verus! {

/// A kind of property.
#[derive(Clone, Copy, Debug, PartialEq, Eq, Structural)]
pub enum ItemType {
    PoliticalCapital,
    Generator,
}

/// The words that name political capital.
pub open spec fn pc_names() -> Seq<Seq<char>> {
    seq!["pc"@, "politicalcapital"@, "political-capital"@, "capital"@]
}

/// The words that name generators.
pub open spec fn gen_names() -> Seq<Seq<char>> {
    seq!["gen"@, "g"@, "generator"@, "generators"@, "gens"@]
}

/// The kind that a word names, if it names one.
pub open spec fn named_type(word: Seq<char>) -> Option<ItemType> {
    if pc_names().contains(word) {
        Some(ItemType::PoliticalCapital)
    } else if gen_names().contains(word) {
        Some(ItemType::Generator)
    } else {
        None
    }
}

impl ItemType {
    /// The name under which the database keeps the kind.
    pub open spec fn stored_name(self) -> Seq<char> {
        match self {
            ItemType::PoliticalCapital => "pc"@,
            ItemType::Generator => "gen"@,
        }
    }

    /// The phrase that replies use for the kind.
    pub open spec fn phrase(self) -> Seq<char> {
        match self {
            ItemType::PoliticalCapital => "political capital"@,
            ItemType::Generator => "generator(s)"@,
        }
    }

    /// The name under which the database keeps the kind.
    pub fn db_name(&self) -> (r: &'static str)
        ensures
            r@ == self.stored_name(),
            *self is PoliticalCapital ==> r@ == "pc"@,
            *self is Generator ==> r@ == "gen"@,
    {
        match *self {
            ItemType::PoliticalCapital => "pc",
            ItemType::Generator => "gen",
        }
    }

    /// The phrase that replies use for the kind.
    pub fn label(&self) -> (r: &'static str)
        ensures
            r@ == self.phrase(),
            *self is PoliticalCapital ==> r@ == "political capital"@,
            *self is Generator ==> r@ == "generator(s)"@,
    {
        match *self {
            ItemType::PoliticalCapital => "political capital",
            ItemType::Generator => "generator(s)",
        }
    }

    /// The kind that `word` names, or `None` where it names neither.
    pub fn from_name(word: &str) -> (r: Option<ItemType>)
        ensures
            r == named_type(word@),
    {
        if is_pc_name(word) {
            Some(ItemType::PoliticalCapital)
        } else if is_gen_name(word) {
            Some(ItemType::Generator)
        } else {
            None
        }
    }
}

/// Whether `word` names political capital.
pub fn is_pc_name(word: &str) -> (r: bool)
    ensures
        r == pc_names().contains(word@),
{
    let r = same_text(word, "pc") || same_text(word, "politicalcapital") || same_text(
        word,
        "political-capital",
    ) || same_text(word, "capital");
    proof {
        let names = pc_names();
        if r {
            assert(word@ == names[0] || word@ == names[1] || word@ == names[2] || word@
                == names[3]);
        }
    }
    r
}

/// Whether `word` names generators.
pub fn is_gen_name(word: &str) -> (r: bool)
    ensures
        r == gen_names().contains(word@),
{
    let r = same_text(word, "gen") || same_text(word, "g") || same_text(word, "generator")
        || same_text(word, "generators") || same_text(word, "gens");
    proof {
        let names = gen_names();
        if r {
            assert(word@ == names[0] || word@ == names[1] || word@ == names[2] || word@ == names[3]
                || word@ == names[4]);
        }
    }
    r
}

/// No word names both kinds, so it does not matter which list is asked first.
pub proof fn law_names_are_unambiguous(word: Seq<char>)
    ensures
        !(pc_names().contains(word) && gen_names().contains(word)),
{
    reveal_strlit("pc");
    reveal_strlit("politicalcapital");
    reveal_strlit("political-capital");
    reveal_strlit("capital");
    reveal_strlit("gen");
    reveal_strlit("g");
    reveal_strlit("generator");
    reveal_strlit("generators");
    reveal_strlit("gens");
    if pc_names().contains(word) {
        assert(word[0] == 'p' || word[0] == 'c');
    }
    if gen_names().contains(word) {
        assert(word[0] == 'g');
    }
}

/// A kind is named by the name under which it is stored.
pub proof fn law_stored_name_names_the_kind(ty: ItemType)
    ensures
        named_type(ty.stored_name()) == Some(ty),
{
    law_names_are_unambiguous(ty.stored_name());
    assert(pc_names()[0] == "pc"@);
    assert(gen_names()[0] == "gen"@);
}

/// A word names a kind exactly if it is one of that kind's names, letter for
/// letter.
pub proof fn law_words_that_name_kinds(word: Seq<char>)
    ensures
        named_type(word) == Some(ItemType::PoliticalCapital) <==> (word == "pc"@ || word
            == "politicalcapital"@ || word == "political-capital"@ || word == "capital"@),
        named_type(word) == Some(ItemType::Generator) <==> (word == "gen"@ || word == "g"@ || word
            == "generator"@ || word == "generators"@ || word == "gens"@),
{
    law_names_are_unambiguous(word);
    let pc = pc_names();
    let gen = gen_names();
    assert(pc[0] == "pc"@ && pc[1] == "politicalcapital"@ && pc[2] == "political-capital"@ && pc[3]
        == "capital"@);
    assert(gen[0] == "gen"@ && gen[1] == "g"@ && gen[2] == "generator"@ && gen[3] == "generators"@
        && gen[4] == "gens"@);
}

/// The two kinds are stored and spoken of under different names.
pub proof fn law_kinds_are_told_apart(a: ItemType, b: ItemType)
    ensures
        a.stored_name() == b.stored_name() ==> a == b,
        a.phrase() == b.phrase() ==> a == b,
{
    reveal_strlit("pc");
    reveal_strlit("gen");
    reveal_strlit("political capital");
    reveal_strlit("generator(s)");
    assert(ItemType::PoliticalCapital.stored_name().len() != ItemType::Generator.stored_name().len());
    assert(ItemType::PoliticalCapital.phrase().len() != ItemType::Generator.phrase().len());
}

} // verus!
