//! The reserved words and the table in which the scanner looks them up.

use crate::token::Keyword;
use vstd::prelude::*;

verus! {

/// How a reserved word is written. Reserved words are lower case, and only
/// this exact spelling denotes them.
pub open spec fn keyword_spelling(k: Keyword) -> Seq<char> {
    match k {
        Keyword::Class => "class"@,
        Keyword::Else => "else"@,
        Keyword::Fi => "fi"@,
        Keyword::If => "if"@,
        Keyword::In => "in"@,
        Keyword::Inherits => "inherits"@,
        Keyword::Let => "let"@,
        Keyword::Loop => "loop"@,
        Keyword::Pool => "pool"@,
        Keyword::Then => "then"@,
        Keyword::While => "while"@,
        Keyword::Case => "case"@,
        Keyword::Esac => "esac"@,
        Keyword::Of => "of"@,
        Keyword::New => "new"@,
        Keyword::Isvoid => "isvoid"@,
        Keyword::Not => "not"@,
    }
}

/// The reserved words, in the order of the table.
pub open spec fn all_keywords() -> Seq<Keyword> {
    seq![
        Keyword::Class,
        Keyword::Else,
        Keyword::Fi,
        Keyword::If,
        Keyword::In,
        Keyword::Inherits,
        Keyword::Let,
        Keyword::Loop,
        Keyword::Pool,
        Keyword::Then,
        Keyword::While,
        Keyword::Case,
        Keyword::Esac,
        Keyword::Of,
        Keyword::New,
        Keyword::Isvoid,
        Keyword::Not,
    ]
}

/// The reserved word that `name` spells, if it spells one.
pub open spec fn keyword_of(name: Seq<char>) -> Option<Keyword> {
    if exists|k: Keyword| keyword_spelling(k) == name {
        Some(choose|k: Keyword| keyword_spelling(k) == name)
    } else {
        None
    }
}

/// Every reserved word stands in the table.
pub proof fn lemma_all_keywords_complete(k: Keyword)
    ensures
        exists|i: int| 0 <= i < all_keywords().len() && all_keywords()[i] == k,
{
    let t = all_keywords();
    match k {
        Keyword::Class => assert(t[0] == k),
        Keyword::Else => assert(t[1] == k),
        Keyword::Fi => assert(t[2] == k),
        Keyword::If => assert(t[3] == k),
        Keyword::In => assert(t[4] == k),
        Keyword::Inherits => assert(t[5] == k),
        Keyword::Let => assert(t[6] == k),
        Keyword::Loop => assert(t[7] == k),
        Keyword::Pool => assert(t[8] == k),
        Keyword::Then => assert(t[9] == k),
        Keyword::While => assert(t[10] == k),
        Keyword::Case => assert(t[11] == k),
        Keyword::Esac => assert(t[12] == k),
        Keyword::Of => assert(t[13] == k),
        Keyword::New => assert(t[14] == k),
        Keyword::Isvoid => assert(t[15] == k),
        Keyword::Not => assert(t[16] == k),
    }
}

/// No two reserved words are spelled alike.
pub proof fn lemma_keyword_spelling_injective(a: Keyword, b: Keyword)
    requires
        keyword_spelling(a) == keyword_spelling(b),
    ensures
        a == b,
{
    reveal_strlit("class");
    reveal_strlit("else");
    reveal_strlit("fi");
    reveal_strlit("if");
    reveal_strlit("in");
    reveal_strlit("inherits");
    reveal_strlit("let");
    reveal_strlit("loop");
    reveal_strlit("pool");
    reveal_strlit("then");
    reveal_strlit("while");
    reveal_strlit("case");
    reveal_strlit("esac");
    reveal_strlit("of");
    reveal_strlit("new");
    reveal_strlit("isvoid");
    reveal_strlit("not");
    let s = keyword_spelling(a);
    let t = keyword_spelling(b);
    assert(s.len() == t.len());
    assert(s[0] == t[0]);
    assert(s[1] == t[1]);
}

/// Looking a name up finds a reserved word exactly when the name is that
/// word's spelling: the match is exact and case-sensitive.
pub proof fn lemma_keyword_of_exact(name: Seq<char>, k: Keyword)
    ensures
        keyword_of(name) == Some(k) <==> name == keyword_spelling(k),
{
    if name == keyword_spelling(k) {
        let found = choose|j: Keyword| keyword_spelling(j) == name;
        lemma_keyword_spelling_injective(found, k);
    }
}

/// The lines of the keyword table: each reserved word under its spelling.
pub open spec fn keyword_entries() -> Seq<(Seq<char>, Keyword)> {
    all_keywords().map_values(|k: Keyword| (keyword_spelling(k), k))
}

/// One line of the keyword table.
struct KeywordEntry {
    name: String,
    keyword: Keyword,
}

/// The keyword table: the reserved words with their spellings. It is built
/// once and never changes.
pub struct KeywordTable {
    entries: Vec<KeywordEntry>,
}

impl View for KeywordTable {
    type V = Seq<(Seq<char>, Keyword)>;

    /// The lines of the table, in order.
    closed spec fn view(&self) -> Seq<(Seq<char>, Keyword)> {
        self.entries@.map_values(|e: KeywordEntry| (e.name@, e.keyword))
    }
}

impl KeywordTable {
    /// Every table holds the reserved words, all of them and nothing else.
    #[verifier::type_invariant]
    spec fn holds_all_keywords(self) -> bool {
        self@ == keyword_entries()
    }

    /// Builds the table.
    pub fn new() -> (table: KeywordTable)
        ensures
            table@ == keyword_entries(),
    {
        let mut entries: Vec<KeywordEntry> = Vec::new();
        entries.push(KeywordEntry { name: "class".to_owned(), keyword: Keyword::Class });
        entries.push(KeywordEntry { name: "else".to_owned(), keyword: Keyword::Else });
        entries.push(KeywordEntry { name: "fi".to_owned(), keyword: Keyword::Fi });
        entries.push(KeywordEntry { name: "if".to_owned(), keyword: Keyword::If });
        entries.push(KeywordEntry { name: "in".to_owned(), keyword: Keyword::In });
        entries.push(KeywordEntry { name: "inherits".to_owned(), keyword: Keyword::Inherits });
        entries.push(KeywordEntry { name: "let".to_owned(), keyword: Keyword::Let });
        entries.push(KeywordEntry { name: "loop".to_owned(), keyword: Keyword::Loop });
        entries.push(KeywordEntry { name: "pool".to_owned(), keyword: Keyword::Pool });
        entries.push(KeywordEntry { name: "then".to_owned(), keyword: Keyword::Then });
        entries.push(KeywordEntry { name: "while".to_owned(), keyword: Keyword::While });
        entries.push(KeywordEntry { name: "case".to_owned(), keyword: Keyword::Case });
        entries.push(KeywordEntry { name: "esac".to_owned(), keyword: Keyword::Esac });
        entries.push(KeywordEntry { name: "of".to_owned(), keyword: Keyword::Of });
        entries.push(KeywordEntry { name: "new".to_owned(), keyword: Keyword::New });
        entries.push(KeywordEntry { name: "isvoid".to_owned(), keyword: Keyword::Isvoid });
        entries.push(KeywordEntry { name: "not".to_owned(), keyword: Keyword::Not });
        assert(entries@.map_values(|e: KeywordEntry| (e.name@, e.keyword)) =~= keyword_entries());
        KeywordTable { entries }
    }

    /// Looks `name` up: the reserved word that it spells, or `None` if it
    /// spells none.
    pub fn lookup(&self, name: &String) -> (found: Option<Keyword>)
        ensures
            found == keyword_of(name@),
    {
        proof {
            use_type_invariant(self);
        }
        assert(self@.len() == keyword_entries().len());
        let mut i: usize = 0;
        while i < self.entries.len()
            invariant
                i <= self.entries@.len(),
                self.entries@.len() == all_keywords().len(),
                self@ == keyword_entries(),
                forall|j: int| 0 <= j < i ==> keyword_spelling(#[trigger] all_keywords()[j]) != name@,
            decreases self.entries@.len() - i,
        {
            assert(self@[i as int] == (self.entries@[i as int].name@, self.entries@[i as int].keyword));
            assert(keyword_entries()[i as int] == (
                keyword_spelling(all_keywords()[i as int]),
                all_keywords()[i as int],
            ));
            if self.entries[i].name == *name {
                proof {
                    lemma_keyword_of_exact(name@, all_keywords()[i as int]);
                }
                return Some(self.entries[i].keyword);
            }
            i = i + 1;
        }
        assert forall|k: Keyword| keyword_spelling(k) != name@ by {
            lemma_all_keywords_complete(k);
        }
        None
    }
}

} // verus!
