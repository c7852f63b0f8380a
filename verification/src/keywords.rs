use vstd::prelude::*;
use vstd::string::StrSliceExecFns;

use crate::lexeme::{Lexeme, LexemeView};

verus! {

/// The number of reserved words.
pub const KEYWORD_COUNT: usize = 16;

/// The reserved words, in lexicographic order.
pub open spec fn keyword_text(i: int) -> Seq<char> {
    if i == 0 {
        "and"@
    } else if i == 1 {
        "class"@
    } else if i == 2 {
        "else"@
    } else if i == 3 {
        "false"@
    } else if i == 4 {
        "for"@
    } else if i == 5 {
        "fun"@
    } else if i == 6 {
        "if"@
    } else if i == 7 {
        "nil"@
    } else if i == 8 {
        "or"@
    } else if i == 9 {
        "print"@
    } else if i == 10 {
        "return"@
    } else if i == 11 {
        "super"@
    } else if i == 12 {
        "this"@
    } else if i == 13 {
        "true"@
    } else if i == 14 {
        "var"@
    } else {
        "while"@
    }
}

/// The lexeme of each reserved word, in the order of [`keyword_text`].
pub open spec fn keyword_lexeme(i: int) -> LexemeView {
    if i == 0 {
        LexemeView::And
    } else if i == 1 {
        LexemeView::Class
    } else if i == 2 {
        LexemeView::Else
    } else if i == 3 {
        LexemeView::False
    } else if i == 4 {
        LexemeView::For
    } else if i == 5 {
        LexemeView::Fun
    } else if i == 6 {
        LexemeView::If
    } else if i == 7 {
        LexemeView::Nil
    } else if i == 8 {
        LexemeView::Or
    } else if i == 9 {
        LexemeView::Print
    } else if i == 10 {
        LexemeView::Return
    } else if i == 11 {
        LexemeView::Super
    } else if i == 12 {
        LexemeView::This
    } else if i == 13 {
        LexemeView::True
    } else if i == 14 {
        LexemeView::Var
    } else {
        LexemeView::While
    }
}

/// What a maximal run of letters, digits and underscores stands for: the
/// keyword that it spells, or else an identifier of that name.
pub open spec fn word_lexeme(text: Seq<char>) -> LexemeView {
    if text == "and"@ {
        LexemeView::And
    } else if text == "class"@ {
        LexemeView::Class
    } else if text == "else"@ {
        LexemeView::Else
    } else if text == "false"@ {
        LexemeView::False
    } else if text == "for"@ {
        LexemeView::For
    } else if text == "fun"@ {
        LexemeView::Fun
    } else if text == "if"@ {
        LexemeView::If
    } else if text == "nil"@ {
        LexemeView::Nil
    } else if text == "or"@ {
        LexemeView::Or
    } else if text == "print"@ {
        LexemeView::Print
    } else if text == "return"@ {
        LexemeView::Return
    } else if text == "super"@ {
        LexemeView::Super
    } else if text == "this"@ {
        LexemeView::This
    } else if text == "true"@ {
        LexemeView::True
    } else if text == "var"@ {
        LexemeView::Var
    } else if text == "while"@ {
        LexemeView::While
    } else {
        LexemeView::Identifier(text)
    }
}

/// `a` and `b` agree on their first `i` characters, and there `a` ends while
/// `b` goes on, or `a` has the smaller character.
pub open spec fn precedes_at(a: Seq<char>, b: Seq<char>, i: int) -> bool {
    &&& 0 <= i <= a.len()
    &&& i <= b.len()
    &&& forall|j: int| 0 <= j < i ==> a[j] == b[j]
    &&& (i == a.len() && i < b.len()) || (i < a.len() && i < b.len() && a[i] < b[i])
}

/// Strict lexicographic order on texts, by character code.
pub open spec fn precedes(a: Seq<char>, b: Seq<char>) -> bool {
    exists|i: int| precedes_at(a, b, i)
}

/// The lexicographic order is transitive.
pub proof fn lemma_precedes_transitive(a: Seq<char>, b: Seq<char>, c: Seq<char>)
    requires
        precedes(a, b),
        precedes(b, c),
    ensures
        precedes(a, c),
{
    let i = choose|i: int| precedes_at(a, b, i);
    let j = choose|j: int| precedes_at(b, c, j);
    let k = if i <= j {
        i
    } else {
        j
    };
    assert(precedes_at(a, c, k));
}

/// A text does not precede itself.
pub proof fn lemma_precedes_distinct(a: Seq<char>, b: Seq<char>)
    requires
        precedes(a, b),
    ensures
        a != b,
{
}

proof fn lemma_keyword_texts()
    ensures
        keyword_text(0) == seq!['a', 'n', 'd'],
        keyword_text(1) == seq!['c', 'l', 'a', 's', 's'],
        keyword_text(2) == seq!['e', 'l', 's', 'e'],
        keyword_text(3) == seq!['f', 'a', 'l', 's', 'e'],
        keyword_text(4) == seq!['f', 'o', 'r'],
        keyword_text(5) == seq!['f', 'u', 'n'],
        keyword_text(6) == seq!['i', 'f'],
        keyword_text(7) == seq!['n', 'i', 'l'],
        keyword_text(8) == seq!['o', 'r'],
        keyword_text(9) == seq!['p', 'r', 'i', 'n', 't'],
        keyword_text(10) == seq!['r', 'e', 't', 'u', 'r', 'n'],
        keyword_text(11) == seq!['s', 'u', 'p', 'e', 'r'],
        keyword_text(12) == seq!['t', 'h', 'i', 's'],
        keyword_text(13) == seq!['t', 'r', 'u', 'e'],
        keyword_text(14) == seq!['v', 'a', 'r'],
        keyword_text(15) == seq!['w', 'h', 'i', 'l', 'e'],
{
    reveal_strlit("and");
    reveal_strlit("class");
    reveal_strlit("else");
    reveal_strlit("false");
    reveal_strlit("for");
    reveal_strlit("fun");
    reveal_strlit("if");
    reveal_strlit("nil");
    reveal_strlit("or");
    reveal_strlit("print");
    reveal_strlit("return");
    reveal_strlit("super");
    reveal_strlit("this");
    reveal_strlit("true");
    reveal_strlit("var");
    reveal_strlit("while");
    assert(keyword_text(0) =~= seq!['a', 'n', 'd']);
    assert(keyword_text(1) =~= seq!['c', 'l', 'a', 's', 's']);
    assert(keyword_text(2) =~= seq!['e', 'l', 's', 'e']);
    assert(keyword_text(3) =~= seq!['f', 'a', 'l', 's', 'e']);
    assert(keyword_text(4) =~= seq!['f', 'o', 'r']);
    assert(keyword_text(5) =~= seq!['f', 'u', 'n']);
    assert(keyword_text(6) =~= seq!['i', 'f']);
    assert(keyword_text(7) =~= seq!['n', 'i', 'l']);
    assert(keyword_text(8) =~= seq!['o', 'r']);
    assert(keyword_text(9) =~= seq!['p', 'r', 'i', 'n', 't']);
    assert(keyword_text(10) =~= seq!['r', 'e', 't', 'u', 'r', 'n']);
    assert(keyword_text(11) =~= seq!['s', 'u', 'p', 'e', 'r']);
    assert(keyword_text(12) =~= seq!['t', 'h', 'i', 's']);
    assert(keyword_text(13) =~= seq!['t', 'r', 'u', 'e']);
    assert(keyword_text(14) =~= seq!['v', 'a', 'r']);
    assert(keyword_text(15) =~= seq!['w', 'h', 'i', 'l', 'e']);
}

proof fn lemma_keywords_adjacent(i: int)
    requires
        0 <= i < 15,
    ensures
        precedes(keyword_text(i), keyword_text(i + 1)),
{
    lemma_keyword_texts();
    if i == 0 {
        assert(precedes_at(keyword_text(0), keyword_text(1), 0));
    }
    if i == 1 {
        assert(precedes_at(keyword_text(1), keyword_text(2), 0));
    }
    if i == 2 {
        assert(precedes_at(keyword_text(2), keyword_text(3), 0));
    }
    if i == 3 {
        assert(precedes_at(keyword_text(3), keyword_text(4), 1));
    }
    if i == 4 {
        assert(precedes_at(keyword_text(4), keyword_text(5), 1));
    }
    if i == 5 {
        assert(precedes_at(keyword_text(5), keyword_text(6), 0));
    }
    if i == 6 {
        assert(precedes_at(keyword_text(6), keyword_text(7), 0));
    }
    if i == 7 {
        assert(precedes_at(keyword_text(7), keyword_text(8), 0));
    }
    if i == 8 {
        assert(precedes_at(keyword_text(8), keyword_text(9), 0));
    }
    if i == 9 {
        assert(precedes_at(keyword_text(9), keyword_text(10), 0));
    }
    if i == 10 {
        assert(precedes_at(keyword_text(10), keyword_text(11), 0));
    }
    if i == 11 {
        assert(precedes_at(keyword_text(11), keyword_text(12), 0));
    }
    if i == 12 {
        assert(precedes_at(keyword_text(12), keyword_text(13), 1));
    }
    if i == 13 {
        assert(precedes_at(keyword_text(13), keyword_text(14), 0));
    }
    if i == 14 {
        assert(precedes_at(keyword_text(14), keyword_text(15), 0));
    }
}

/// The table of reserved words is strictly sorted.
pub proof fn lemma_keywords_sorted(i: int, j: int)
    requires
        0 <= i < j < 16,
    ensures
        precedes(keyword_text(i), keyword_text(j)),
    decreases j - i,
{
    if j == i + 1 {
        lemma_keywords_adjacent(i);
    } else {
        lemma_keywords_sorted(i, j - 1);
        lemma_keywords_adjacent(j - 1);
        lemma_precedes_transitive(keyword_text(i), keyword_text(j - 1), keyword_text(j));
    }
}

/// A word that spells the `i`-th reserved word stands for its lexeme, and a
/// word that spells none is an identifier.
pub proof fn lemma_word_lexeme(text: Seq<char>)
    ensures
        forall|i: int|
            0 <= i < 16 && keyword_text(i) == text ==> word_lexeme(text) == keyword_lexeme(i),
        (forall|i: int| 0 <= i < 16 ==> keyword_text(i) != text) ==> word_lexeme(text)
            == LexemeView::Identifier(text),
{
    lemma_keyword_texts();
    assert forall|i: int| 0 <= i < 16 && keyword_text(i) == text implies word_lexeme(text)
        == keyword_lexeme(i) by {
        assert(text.len() == keyword_text(i).len());
        assert(text[0] == keyword_text(i)[0]);
        assert(text[1] == keyword_text(i)[1]);
        if text.len() > 2 {
            assert(text[2] == keyword_text(i)[2]);
        }
    }
    if forall|i: int| 0 <= i < 16 ==> keyword_text(i) != text {
        assert(keyword_text(0) != text);
        assert(keyword_text(1) != text);
        assert(keyword_text(2) != text);
        assert(keyword_text(3) != text);
        assert(keyword_text(4) != text);
        assert(keyword_text(5) != text);
        assert(keyword_text(6) != text);
        assert(keyword_text(7) != text);
        assert(keyword_text(8) != text);
        assert(keyword_text(9) != text);
        assert(keyword_text(10) != text);
        assert(keyword_text(11) != text);
        assert(keyword_text(12) != text);
        assert(keyword_text(13) != text);
        assert(keyword_text(14) != text);
        assert(keyword_text(15) != text);
    }
}

/// The `i`-th reserved word.
fn keyword(i: usize) -> (word: &'static str)
    requires
        i < 16,
    ensures
        word@ == keyword_text(i as int),
{
    if i == 0 {
        "and"
    } else if i == 1 {
        "class"
    } else if i == 2 {
        "else"
    } else if i == 3 {
        "false"
    } else if i == 4 {
        "for"
    } else if i == 5 {
        "fun"
    } else if i == 6 {
        "if"
    } else if i == 7 {
        "nil"
    } else if i == 8 {
        "or"
    } else if i == 9 {
        "print"
    } else if i == 10 {
        "return"
    } else if i == 11 {
        "super"
    } else if i == 12 {
        "this"
    } else if i == 13 {
        "true"
    } else if i == 14 {
        "var"
    } else {
        "while"
    }
}

/// The lexeme of the `i`-th reserved word.
fn keyword_token(i: usize) -> (l: Lexeme)
    requires
        i < 16,
    ensures
        l@ == keyword_lexeme(i as int),
{
    if i == 0 {
        Lexeme::And
    } else if i == 1 {
        Lexeme::Class
    } else if i == 2 {
        Lexeme::Else
    } else if i == 3 {
        Lexeme::False
    } else if i == 4 {
        Lexeme::For
    } else if i == 5 {
        Lexeme::Fun
    } else if i == 6 {
        Lexeme::If
    } else if i == 7 {
        Lexeme::Nil
    } else if i == 8 {
        Lexeme::Or
    } else if i == 9 {
        Lexeme::Print
    } else if i == 10 {
        Lexeme::Return
    } else if i == 11 {
        Lexeme::Super
    } else if i == 12 {
        Lexeme::This
    } else if i == 13 {
        Lexeme::True
    } else if i == 14 {
        Lexeme::Var
    } else {
        Lexeme::While
    }
}

/// How a text stands to a word of the table.
enum Rank {
    Before,
    Same,
    After,
}

/// Compares `text`, which is `text_len` characters long, with `word`.
fn rank_against(text: &str, text_len: usize, word: &str) -> (r: Rank)
    requires
        text_len == text@.len(),
    ensures
        match r {
            Rank::Before => precedes(text@, word@),
            Rank::Same => text@ == word@,
            Rank::After => precedes(word@, text@),
        },
{
    let word_len = word.unicode_len();
    let mut k: usize = 0;
    while k < text_len && k < word_len
        invariant
            k <= text_len,
            k <= word_len,
            text_len == text@.len(),
            word_len == word@.len(),
            forall|j: int| 0 <= j < k ==> text@[j] == word@[j],
        decreases text_len - k,
    {
        let a = text.get_char(k);
        let b = word.get_char(k);
        if a < b {
            proof {
                assert(precedes_at(text@, word@, k as int));
            }
            return Rank::Before;
        }
        if b < a {
            proof {
                assert(precedes_at(word@, text@, k as int));
            }
            return Rank::After;
        }
        k += 1;
    }
    if text_len == word_len {
        proof {
            assert(text@ =~= word@);
        }
        Rank::Same
    } else if text_len < word_len {
        proof {
            assert(precedes_at(text@, word@, k as int));
        }
        Rank::Before
    } else {
        proof {
            assert(precedes_at(word@, text@, k as int));
        }
        Rank::After
    }
}

/// Looks `text` up in the table of reserved words by binary search: the index
/// of the word that it spells, if it spells one.
pub fn find_keyword(text: &str) -> (r: Option<usize>)
    ensures
        match r {
            Some(i) => i < 16 && keyword_text(i as int) == text@,
            None => forall|i: int| 0 <= i < 16 ==> keyword_text(i) != text@,
        },
{
    let n = text.unicode_len();
    let mut lo: usize = 0;
    let mut hi: usize = KEYWORD_COUNT;
    while lo < hi
        invariant
            lo <= hi <= 16,
            n == text@.len(),
            forall|i: int| 0 <= i < lo ==> precedes(#[trigger] keyword_text(i), text@),
            forall|i: int| hi <= i < 16 ==> precedes(text@, #[trigger] keyword_text(i)),
        decreases hi - lo,
    {
        let mid = lo + (hi - lo) / 2;
        match rank_against(text, n, keyword(mid)) {
            Rank::Same => {
                return Some(mid);
            },
            Rank::Before => {
                proof {
                    assert forall|i: int| mid <= i < 16 implies precedes(
                        text@,
                        #[trigger] keyword_text(i),
                    ) by {
                        if mid < i {
                            lemma_keywords_sorted(mid as int, i);
                            lemma_precedes_transitive(
                                text@,
                                keyword_text(mid as int),
                                keyword_text(i),
                            );
                        }
                    }
                }
                hi = mid;
            },
            Rank::After => {
                proof {
                    assert forall|i: int| 0 <= i < mid + 1 implies precedes(
                        #[trigger] keyword_text(i),
                        text@,
                    ) by {
                        if i < mid {
                            lemma_keywords_sorted(i, mid as int);
                            lemma_precedes_transitive(
                                keyword_text(i),
                                keyword_text(mid as int),
                                text@,
                            );
                        }
                    }
                }
                lo = mid + 1;
            },
        }
    }
    proof {
        assert forall|i: int| 0 <= i < 16 implies keyword_text(i) != text@ by {
            if i < lo {
                lemma_precedes_distinct(keyword_text(i), text@);
            } else {
                lemma_precedes_distinct(text@, keyword_text(i));
            }
        }
    }
    None
}

/// Resolves a word: the keyword that it spells, or else an identifier.
pub fn lexeme_of_word(text: String) -> (l: Lexeme)
    ensures
        l@ == word_lexeme(text@),
{
    proof {
        lemma_word_lexeme(text@);
    }
    match find_keyword(text.as_str()) {
        Some(i) => keyword_token(i),
        None => Lexeme::Identifier(text),
    }
}

} // verus!
