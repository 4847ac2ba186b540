//! Decoding the intent of a goal that the user types into the central loop.
use vstd::prelude::*;

verus! {

/// What a user goal asks the system to do.
#[derive(Debug, Clone, Copy, PartialEq, Eq, Structural)]
pub enum Intent {
    /// Natural-language debugging: something is hot, slow or wrong.
    Diagnostic,
    /// Context-aware secret management: secrets, ssh, logins.
    Credential,
    /// Zero-click development assistance: fixing and building code.
    CodeModification,
    /// Anything else.
    General,
}

/// `c` with ASCII upper-case letters mapped to lower case.
pub open spec fn ascii_lower(c: char) -> char {
    if 'A' <= c && c <= 'Z' {
        ((c as u32) + 32) as char
    } else {
        c
    }
}

/// `s` with ASCII upper-case letters mapped to lower case.
pub open spec fn lowered(s: Seq<char>) -> Seq<char> {
    s.map_values(|c: char| ascii_lower(c))
}

/// `needle` occurs in `hay` as a contiguous run.
pub open spec fn occurs_in(hay: Seq<char>, needle: Seq<char>) -> bool {
    exists|i: int| 0 <= i <= hay.len() - needle.len() && #[trigger] hay.subrange(i, i + needle.len()) == needle
}

/// Any of `needles` occurs in `hay`.
pub open spec fn any_occurs_in(hay: Seq<char>, needles: Seq<Seq<char>>) -> bool {
    exists|k: int| 0 <= k < needles.len() && occurs_in(hay, #[trigger] needles[k])
}

/// Words that mark a diagnostic query.
pub open spec fn diagnostic_words() -> Seq<Seq<char>> {
    seq![seq!['h', 'o', 't'], seq!['s', 'l', 'o', 'w'], seq!['w', 'h', 'y'], seq!['w', 'r', 'o', 'n', 'g']]
}

/// Words that mark a credential operation.
pub open spec fn credential_words() -> Seq<Seq<char>> {
    seq![
        seq!['s', 'e', 'c', 'r', 'e', 't'],
        seq!['s', 's', 'h'],
        seq!['l', 'o', 'g', 'i', 'n'],
        seq!['a', 'u', 't', 'h'],
    ]
}

/// Words that mark a codebase modification.
pub open spec fn code_words() -> Seq<Seq<char>> {
    seq![seq!['f', 'i', 'x'], seq!['c', 'o', 'd', 'e'], seq!['b', 'u', 'i', 'l', 'd'], seq!['r', 'u', 's', 't']]
}

/// The intent of a goal: the first group, in the order diagnostic,
/// credential, code, of which a word occurs in the goal, letters compared
/// without regard to case; `General` when none does.
pub open spec fn spec_classify_goal(goal: Seq<char>) -> Intent {
    let g = lowered(goal);
    if any_occurs_in(g, diagnostic_words()) {
        Intent::Diagnostic
    } else if any_occurs_in(g, credential_words()) {
        Intent::Credential
    } else if any_occurs_in(g, code_words()) {
        Intent::CodeModification
    } else {
        Intent::General
    }
}

/// `c` with ASCII upper-case letters mapped to lower case.
fn to_ascii_lower(c: char) -> (r: char)
    ensures
        r == ascii_lower(c),
{
    if 'A' <= c && c <= 'Z' {
        ((c as u8) + 32) as char
    } else {
        c
    }
}

/// The characters of `s`, ASCII letters in lower case.
fn lowered_chars(s: &str) -> (r: Vec<char>)
    ensures
        r@ == lowered(s@),
{
    let mut r: Vec<char> = Vec::new();
    let n = s.unicode_len();
    for i in 0..n
        invariant
            n == s@.len(),
            r@ =~= lowered(s@.take(i as int)),
    {
        let c = s.get_char(i);
        r.push(to_ascii_lower(c));
        assert(s@.take(i + 1) =~= s@.take(i as int).push(c));
        assert(r@ =~= lowered(s@.take(i + 1)));
    }
    assert(s@.take(n as int) =~= s@);
    r
}

/// `needle` occurs in `hay`.
fn occurs(hay: &Vec<char>, needle: &[char]) -> (b: bool)
    requires
        needle@.len() > 0,
    ensures
        b == occurs_in(hay@, needle@),
{
    if needle.len() > hay.len() {
        proof {
            assert forall|i: int| 0 <= i <= hay@.len() - needle@.len() implies #[trigger] hay@.subrange(
                i,
                i + needle@.len(),
            ) != needle@ by {}
        }
        return false;
    }
    let hl = hay.len();
    let last = hl - needle.len();
    let mut i: usize = 0;
    while i <= last
        invariant
            last == hay@.len() - needle@.len(),
            needle@.len() > 0,
            hl == hay@.len(),
            needle@.len() <= hay@.len(),
            i <= last + 1,
            forall|p: int| 0 <= p < i ==> #[trigger] hay@.subrange(p, p + needle@.len()) != needle@,
        decreases last + 1 - i,
    {
        let mut j: usize = 0;
        let mut all = true;
        while j < needle.len()
            invariant
                i <= last,
                last == hay@.len() - needle@.len(),
                needle@.len() <= hay@.len(),
                hl == hay@.len(),
                j <= needle@.len(),
                all == forall|q: int| 0 <= q < j ==> hay@[i + q] == needle@[q],
            decreases needle@.len() - j,
        {
            if hay[i + j] != needle[j] {
                all = false;
            }
            j += 1;
        }
        if all {
            assert(hay@.subrange(i as int, i + needle@.len()) =~= needle@);
            return true;
        }
        assert(hay@.subrange(i as int, i + needle@.len()) != needle@) by {
            let q = choose|q: int| 0 <= q < needle@.len() && hay@[i + q] != needle@[q];
            assert(hay@.subrange(i as int, i + needle@.len())[q] != needle@[q]);
        }
        i += 1;
    }
    false
}

/// The intent of a goal, decided as the central loop does before it
/// answers: diagnostic words (`hot`, `slow`, `why`, `wrong`) win over
/// credential words (`secret`, `ssh`, `login`, `auth`), which win over code
/// words (`fix`, `code`, `build`, `rust`); with none of them the intent is
/// general.
///
/// Letters are compared after mapping ASCII upper case to lower case. Full
/// Unicode lowercasing (`str::to_lowercase`) gives the same intent: every
/// word is ASCII, and no non-ASCII character lowers to a run that completes
/// one of them.
pub fn classify_goal(goal: &str) -> (i: Intent)
    ensures
        i == spec_classify_goal(goal@),
{
    let g = lowered_chars(goal);
    let hot = occurs(&g, &['h', 'o', 't']);
    let slow = occurs(&g, &['s', 'l', 'o', 'w']);
    let why = occurs(&g, &['w', 'h', 'y']);
    let wrong = occurs(&g, &['w', 'r', 'o', 'n', 'g']);
    proof {
        lemma_any_of_four(g@, diagnostic_words());
    }
    if hot || slow || why || wrong {
        return Intent::Diagnostic;
    }
    let secret = occurs(&g, &['s', 'e', 'c', 'r', 'e', 't']);
    let ssh = occurs(&g, &['s', 's', 'h']);
    let login = occurs(&g, &['l', 'o', 'g', 'i', 'n']);
    let auth = occurs(&g, &['a', 'u', 't', 'h']);
    proof {
        lemma_any_of_four(g@, credential_words());
    }
    if secret || ssh || login || auth {
        return Intent::Credential;
    }
    let fix = occurs(&g, &['f', 'i', 'x']);
    let code = occurs(&g, &['c', 'o', 'd', 'e']);
    let build = occurs(&g, &['b', 'u', 'i', 'l', 'd']);
    let rust = occurs(&g, &['r', 'u', 's', 't']);
    proof {
        lemma_any_of_four(g@, code_words());
    }
    if fix || code || build || rust {
        return Intent::CodeModification;
    }
    Intent::General
}

/// For four needles, "any occurs" is the disjunction of the four.
proof fn lemma_any_of_four(hay: Seq<char>, needles: Seq<Seq<char>>)
    requires
        needles.len() == 4,
    ensures
        any_occurs_in(hay, needles) == (occurs_in(hay, needles[0]) || occurs_in(hay, needles[1])
            || occurs_in(hay, needles[2]) || occurs_in(hay, needles[3])),
{
    if occurs_in(hay, needles[0]) || occurs_in(hay, needles[1]) || occurs_in(hay, needles[2])
        || occurs_in(hay, needles[3]) {
        if occurs_in(hay, needles[0]) {
            assert(occurs_in(hay, needles[0]));
        } else if occurs_in(hay, needles[1]) {
            assert(occurs_in(hay, needles[1]));
        } else if occurs_in(hay, needles[2]) {
            assert(occurs_in(hay, needles[2]));
        } else {
            assert(occurs_in(hay, needles[3]));
        }
    }
}

/// Lowering keeps every character in place and changes only ASCII
/// capitals: the lowered goal is as long as the goal, and its character `i`
/// is character `i` of the goal, moved 32 code points down to lower case
/// where it is one of `'A'..='Z'`.
pub proof fn lemma_lowered_pointwise(s: Seq<char>)
    ensures
        lowered(s).len() == s.len(),
        forall|i: int|
            0 <= i < s.len() ==> #[trigger] lowered(s)[i] == if 'A' <= s[i] && s[i] <= 'Z' {
                ((s[i] as u32) + 32) as char
            } else {
                s[i]
            },
{
}

/// The goal holds `word`, in lower case, at position `i`.
pub open spec fn holds_word_at(goal: Seq<char>, word: Seq<char>, i: int) -> bool {
    &&& 0 <= i
    &&& i + word.len() <= goal.len()
    &&& forall|j: int| 0 <= j < word.len() ==> #[trigger] goal[i + j] == word[j]
}

/// Any of `hot`, `slow`, `why`, `wrong` anywhere in a goal, of whatever
/// length, makes it a diagnostic query.
pub proof fn lemma_diagnostic_word_decides(goal: Seq<char>, word: Seq<char>, i: int)
    requires
        word == seq!['h', 'o', 't'] || word == seq!['s', 'l', 'o', 'w'] || word == seq![
            'w',
            'h',
            'y',
        ] || word == seq!['w', 'r', 'o', 'n', 'g'],
        holds_word_at(goal, word, i),
    ensures
        spec_classify_goal(goal) == Intent::Diagnostic,
{
    lemma_word_occurs(goal, word, i);
    lemma_member_of_four(lowered(goal), diagnostic_words(), word);
}

/// Any of `secret`, `ssh`, `login`, `auth` anywhere in a goal makes it a
/// credential operation, unless a diagnostic word makes it a diagnostic query.
pub proof fn lemma_credential_word_decides(goal: Seq<char>, word: Seq<char>, i: int)
    requires
        word == seq!['s', 'e', 'c', 'r', 'e', 't'] || word == seq!['s', 's', 'h'] || word
            == seq!['l', 'o', 'g', 'i', 'n'] || word == seq!['a', 'u', 't', 'h'],
        holds_word_at(goal, word, i),
    ensures
        spec_classify_goal(goal) == Intent::Credential || spec_classify_goal(goal)
            == Intent::Diagnostic,
{
    lemma_word_occurs(goal, word, i);
    lemma_member_of_four(lowered(goal), credential_words(), word);
}

/// Any of `fix`, `code`, `build`, `rust` anywhere in a goal makes its intent
/// something other than general.
pub proof fn lemma_code_word_decides(goal: Seq<char>, word: Seq<char>, i: int)
    requires
        word == seq!['f', 'i', 'x'] || word == seq!['c', 'o', 'd', 'e'] || word == seq![
            'b',
            'u',
            'i',
            'l',
            'd',
        ] || word == seq!['r', 'u', 's', 't'],
        holds_word_at(goal, word, i),
    ensures
        spec_classify_goal(goal) != Intent::General,
{
    lemma_word_occurs(goal, word, i);
    lemma_member_of_four(lowered(goal), code_words(), word);
}

/// `c` is the letter `w` in lower or upper case (for a lower-case `w`).
pub open spec fn same_letter(c: char, w: char) -> bool {
    c == w || (c as u32) + 32 == (w as u32)
}

/// One of `words` appears at some position of `goal`, each letter in
/// either case.
pub open spec fn has_word_any_case(goal: Seq<char>, words: Seq<Seq<char>>) -> bool {
    exists|k: int, i: int| 0 <= k < words.len() && #[trigger] word_at_any_case(goal, words[k], i)
}

/// `word` appears at position `i` of `goal`, each letter in either case.
pub open spec fn word_at_any_case(goal: Seq<char>, word: Seq<char>, i: int) -> bool {
    &&& 0 <= i
    &&& i + word.len() <= goal.len()
    &&& forall|j: int| 0 <= j < word.len() ==> same_letter(#[trigger] goal[i + j], word[j])
}

/// The intent is decided by which words the goal holds, in either case and
/// at any position: any diagnostic word gives a diagnostic query; otherwise
/// any credential word a credential operation; otherwise any code word a
/// code modification; otherwise the goal is general.
pub proof fn lemma_classify_by_words(goal: Seq<char>)
    ensures
        spec_classify_goal(goal) == if has_word_any_case(goal, diagnostic_words()) {
            Intent::Diagnostic
        } else if has_word_any_case(goal, credential_words()) {
            Intent::Credential
        } else if has_word_any_case(goal, code_words()) {
            Intent::CodeModification
        } else {
            Intent::General
        },
{
    lemma_any_case_iff_occurs(goal, diagnostic_words());
    lemma_any_case_iff_occurs(goal, credential_words());
    lemma_any_case_iff_occurs(goal, code_words());
}

/// For words of lower-case ASCII letters, appearing in either case is
/// occurring in the lowered goal.
proof fn lemma_any_case_iff_occurs(goal: Seq<char>, words: Seq<Seq<char>>)
    requires
        forall|k: int, j: int|
            0 <= k < words.len() && 0 <= j < words[k].len() ==> 'a' <= #[trigger] words[k][j]
                && words[k][j] <= 'z',
    ensures
        has_word_any_case(goal, words) == any_occurs_in(lowered(goal), words),
{
    let g = lowered(goal);
    if has_word_any_case(goal, words) {
        let (k, i) = choose|k: int, i: int|
            0 <= k < words.len() && #[trigger] word_at_any_case(goal, words[k], i);
        let w = words[k];
        assert forall|j: int| 0 <= j < w.len() implies #[trigger] g.subrange(i, i + w.len())[j]
            == w[j] by {
            lemma_same_letter_lowers(goal[i + j], w[j]);
        }
        assert(g.subrange(i, i + w.len()) =~= w);
        assert(occurs_in(g, words[k]));
    }
    if any_occurs_in(g, words) {
        let k = choose|k: int| 0 <= k < words.len() && occurs_in(g, #[trigger] words[k]);
        let w = words[k];
        let i = choose|i: int|
            0 <= i <= g.len() - w.len() && #[trigger] g.subrange(i, i + w.len()) == w;
        assert forall|j: int| 0 <= j < w.len() implies same_letter(#[trigger] goal[i + j], w[j]) by {
            assert(g.subrange(i, i + w.len())[j] == w[j]);
            lemma_same_letter_lowers(goal[i + j], w[j]);
        }
        assert(word_at_any_case(goal, words[k], i));
    }
}

/// For a lower-case letter `w`, lowering `c` gives `w` exactly when `c` is
/// `w` in either case.
proof fn lemma_same_letter_lowers(c: char, w: char)
    requires
        'a' <= w && w <= 'z',
    ensures
        (ascii_lower(c) == w) == same_letter(c, w),
{
    if 'A' <= c && c <= 'Z' {
        assert(((c as u32) + 32) as char == w <==> (c as u32) + 32 == (w as u32));
    }
}

/// A lower-case word held by the goal occurs in the lowered goal.
proof fn lemma_word_occurs(goal: Seq<char>, word: Seq<char>, i: int)
    requires
        holds_word_at(goal, word, i),
        forall|j: int| 0 <= j < word.len() ==> 'a' <= #[trigger] word[j] && word[j] <= 'z',
    ensures
        occurs_in(lowered(goal), word),
{
    let g = lowered(goal);
    assert forall|j: int| 0 <= j < word.len() implies #[trigger] g.subrange(i, i + word.len())[j]
        == word[j] by {
        assert(goal[i + j] == word[j]);
    }
    assert(g.subrange(i, i + word.len()) =~= word);
}

/// A word that is one of four needles and occurs makes "any occurs" true.
proof fn lemma_member_of_four(hay: Seq<char>, needles: Seq<Seq<char>>, word: Seq<char>)
    requires
        needles.len() == 4,
        word == needles[0] || word == needles[1] || word == needles[2] || word == needles[3],
        occurs_in(hay, word),
    ensures
        any_occurs_in(hay, needles),
{
    lemma_any_of_four(hay, needles);
}

} // verus!
