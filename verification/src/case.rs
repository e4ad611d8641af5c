//! Naming rules: the words of an identifier, and the identifier rewritten
//! in snake_case and in PascalCase.
//!
//! Only the ASCII letters have a case here; every other character is kept
//! as it is and never ends a word.
use vstd::prelude::*;

verus! {

/// `std::string::String::push` appends the character to the end of the string.
pub assume_specification[ String::push ](s: &mut String, c: char)
    ensures
        final(s)@ == old(s)@.push(c),
;

pub open spec fn is_upper(c: char) -> bool {
    'A' <= c <= 'Z'
}

pub open spec fn is_lower(c: char) -> bool {
    'a' <= c <= 'z'
}

/// The lower-case form of an ASCII capital; any other character unchanged.
pub open spec fn lower(c: char) -> char {
    if is_upper(c) {
        ((c as u8) + 32) as char
    } else {
        c
    }
}

/// The capital of a lower-case ASCII letter; any other character unchanged.
pub open spec fn upper(c: char) -> char {
    if is_lower(c) {
        ((c as u8) - 32) as char
    } else {
        c
    }
}

/// A word starts at position `i` of `s`: the character there is no
/// underscore, and it is the first, or follows an underscore, or is a capital
/// after a lower-case letter, or is the last capital of a run of capitals
/// with a lower-case letter behind it (`HTTPServer` is `HTTP`, `Server`).
pub open spec fn starts_word(s: Seq<char>, i: int) -> bool
    recommends
        0 <= i < s.len(),
{
    &&& s[i] != '_'
    &&& (i == 0 || s[i - 1] == '_' || (is_lower(s[i - 1]) && is_upper(s[i])) || (is_upper(
        s[i - 1],
    ) && is_upper(s[i]) && i + 1 < s.len() && is_lower(s[i + 1])))
}

/// The words among the first `n` characters of `s`, in order. The last one
/// may go on behind `n`.
pub open spec fn words_in(s: Seq<char>, n: int) -> Seq<Seq<char>>
    recommends
        n <= s.len(),
    decreases n,
{
    if n <= 0 {
        Seq::empty()
    } else {
        let before = words_in(s, n - 1);
        let c = s[n - 1];
        if c == '_' {
            before
        } else if starts_word(s, n - 1) {
            before.push(seq![c])
        } else {
            before.update(before.len() - 1, before.last().push(c))
        }
    }
}

/// The words of an identifier: it is cut at every underscore, which belongs
/// to no word, and before every character at which a word starts.
pub open spec fn words(s: Seq<char>) -> Seq<Seq<char>> {
    words_in(s, s.len() as int)
}

/// A word with its capitals in lower case.
pub open spec fn lowercase(w: Seq<char>) -> Seq<char> {
    w.map_values(|c: char| lower(c))
}

/// A word with its first letter as a capital.
pub open spec fn capitalize(w: Seq<char>) -> Seq<char> {
    if w.len() == 0 {
        w
    } else {
        w.update(0, upper(w[0]))
    }
}

/// The words written one after another with an underscore between two.
pub open spec fn join(ws: Seq<Seq<char>>) -> Seq<char>
    decreases ws.len(),
{
    if ws.len() == 0 {
        Seq::empty()
    } else if ws.len() == 1 {
        ws[0]
    } else {
        join(ws.drop_last()) + seq!['_'] + ws.last()
    }
}

/// The words written one after another.
pub open spec fn concat(ws: Seq<Seq<char>>) -> Seq<char>
    decreases ws.len(),
{
    if ws.len() == 0 {
        Seq::empty()
    } else {
        concat(ws.drop_last()) + ws.last()
    }
}

/// An identifier in snake_case: its words in lower case, joined by
/// underscores.
pub open spec fn snake_case(s: Seq<char>) -> Seq<char> {
    join(words(s).map_values(|w: Seq<char>| lowercase(w)))
}

/// An identifier in PascalCase: its words, each with a capital first
/// letter, written one after another.
pub open spec fn pascal_case(s: Seq<char>) -> Seq<char> {
    concat(words(s).map_values(|w: Seq<char>| capitalize(w)))
}

/// What a single pass has written of the snake_case form after `n`
/// characters.
spec fn snake_prefix(s: Seq<char>, n: int) -> Seq<char>
    decreases n,
{
    if n <= 0 {
        Seq::empty()
    } else {
        let before = snake_prefix(s, n - 1);
        let c = s[n - 1];
        if c == '_' {
            before
        } else if starts_word(s, n - 1) && before.len() > 0 {
            before.push('_').push(lower(c))
        } else {
            before.push(lower(c))
        }
    }
}

/// What a single pass has written of the PascalCase form after `n`
/// characters.
spec fn pascal_prefix(s: Seq<char>, n: int) -> Seq<char>
    decreases n,
{
    if n <= 0 {
        Seq::empty()
    } else {
        let before = pascal_prefix(s, n - 1);
        let c = s[n - 1];
        if c == '_' {
            before
        } else if starts_word(s, n - 1) {
            before.push(upper(c))
        } else {
            before.push(c)
        }
    }
}

/// No word is empty, and a word is open wherever the last character read
/// is no underscore.
proof fn lemma_words_in(s: Seq<char>, n: int)
    requires
        0 <= n <= s.len(),
    ensures
        forall|k: int| 0 <= k < words_in(s, n).len() ==> (#[trigger] words_in(s, n)[k]).len() > 0,
        n > 0 && s[n - 1] != '_' ==> words_in(s, n).len() > 0,
    decreases n,
{
    if n > 0 {
        lemma_words_in(s, n - 1);
        let before = words_in(s, n - 1);
        let c = s[n - 1];
        if c == '_' {
        } else if starts_word(s, n - 1) {
            assert forall|k: int| 0 <= k < words_in(s, n).len() implies (#[trigger] words_in(
                s,
                n,
            )[k]).len() > 0 by {
                if k < before.len() {
                    assert(words_in(s, n)[k] == before[k]);
                }
            }
        } else {
            assert(before.len() > 0);
            assert forall|k: int| 0 <= k < words_in(s, n).len() implies (#[trigger] words_in(
                s,
                n,
            )[k]).len() > 0 by {
                if k < before.len() - 1 {
                    assert(words_in(s, n)[k] == before[k]);
                }
            }
        }
    }
}

proof fn lemma_join_push(ws: Seq<Seq<char>>, w: Seq<char>)
    ensures
        join(ws.push(w)) == if ws.len() == 0 {
            w
        } else {
            join(ws) + seq!['_'] + w
        },
{
    assert(ws.push(w).drop_last() =~= ws);
}

proof fn lemma_join_extend(ws: Seq<Seq<char>>, c: char)
    requires
        ws.len() > 0,
    ensures
        join(ws.update(ws.len() - 1, ws.last().push(c))) == join(ws).push(c),
{
    let grown = ws.update(ws.len() - 1, ws.last().push(c));
    if ws.len() > 1 {
        assert(grown.drop_last() =~= ws.drop_last());
    }
    assert(join(grown) =~= join(ws).push(c));
}

proof fn lemma_concat_push(ws: Seq<Seq<char>>, w: Seq<char>)
    ensures
        concat(ws.push(w)) == concat(ws) + w,
{
    assert(ws.push(w).drop_last() =~= ws);
}

proof fn lemma_concat_extend(ws: Seq<Seq<char>>, c: char)
    requires
        ws.len() > 0,
    ensures
        concat(ws.update(ws.len() - 1, ws.last().push(c))) == concat(ws).push(c),
{
    let grown = ws.update(ws.len() - 1, ws.last().push(c));
    assert(grown.drop_last() =~= ws.drop_last());
    assert(concat(grown) =~= concat(ws).push(c));
}

/// The single pass writes the snake_case form of the words read so far.
proof fn lemma_snake_prefix(s: Seq<char>, n: int)
    requires
        0 <= n <= s.len(),
    ensures
        snake_prefix(s, n) == join(words_in(s, n).map_values(|w: Seq<char>| lowercase(w))),
        snake_prefix(s, n).len() > 0 <==> words_in(s, n).len() > 0,
    decreases n,
{
    if n > 0 {
        lemma_snake_prefix(s, n - 1);
        lemma_words_in(s, n - 1);
        let f = |w: Seq<char>| lowercase(w);
        let before = words_in(s, n - 1);
        let c = s[n - 1];
        if c == '_' {
        } else if starts_word(s, n - 1) {
            assert(before.push(seq![c]).map_values(f) =~= before.map_values(f).push(
                seq![lower(c)],
            )) by {
                assert(lowercase(seq![c]) =~= seq![lower(c)]);
            }
            lemma_join_push(before.map_values(f), seq![lower(c)]);
            assert(snake_prefix(s, n) =~= join(words_in(s, n).map_values(f)));
        } else {
            let last = before.last();
            assert(before.update(before.len() - 1, last.push(c)).map_values(f)
                =~= before.map_values(f).update(
                before.len() - 1,
                before.map_values(f).last().push(lower(c)),
            )) by {
                assert(lowercase(last.push(c)) =~= lowercase(last).push(lower(c)));
            }
            lemma_join_extend(before.map_values(f), lower(c));
        }
    }
}

/// The single pass writes the PascalCase form of the words read so far.
proof fn lemma_pascal_prefix(s: Seq<char>, n: int)
    requires
        0 <= n <= s.len(),
    ensures
        pascal_prefix(s, n) == concat(words_in(s, n).map_values(|w: Seq<char>| capitalize(w))),
    decreases n,
{
    if n > 0 {
        lemma_pascal_prefix(s, n - 1);
        lemma_words_in(s, n - 1);
        let f = |w: Seq<char>| capitalize(w);
        let before = words_in(s, n - 1);
        let c = s[n - 1];
        if c == '_' {
        } else if starts_word(s, n - 1) {
            assert(before.push(seq![c]).map_values(f) =~= before.map_values(f).push(
                seq![upper(c)],
            )) by {
                assert(capitalize(seq![c]) =~= seq![upper(c)]);
            }
            lemma_concat_push(before.map_values(f), seq![upper(c)]);
            assert(pascal_prefix(s, n) =~= concat(words_in(s, n).map_values(f)));
        } else {
            let last = before.last();
            assert(before.update(before.len() - 1, last.push(c)).map_values(f)
                =~= before.map_values(f).update(
                before.len() - 1,
                before.map_values(f).last().push(c),
            )) by {
                assert(capitalize(last.push(c)) =~= capitalize(last).push(c));
            }
            lemma_concat_extend(before.map_values(f), c);
        }
    }
}

/// The characters of a text, in order.
fn chars_of(text: &str) -> (chars: Vec<char>)
    ensures
        chars@ == text@,
{
    let mut chars: Vec<char> = Vec::new();
    for c in it: text.chars()
        invariant
            chars@ == it.seq().take(it.index()),
    {
        chars.push(c);
    }
    chars
}

fn to_lower(c: char) -> (l: char)
    ensures
        l == lower(c),
{
    if 'A' <= c && c <= 'Z' {
        ((c as u8) + 32) as char
    } else {
        c
    }
}

fn to_upper(c: char) -> (u: char)
    ensures
        u == upper(c),
{
    if 'a' <= c && c <= 'z' {
        ((c as u8) - 32) as char
    } else {
        c
    }
}

/// Whether a word starts at position `i`.
fn word_starts_at(chars: &Vec<char>, i: usize) -> (starts: bool)
    requires
        i < chars.len(),
    ensures
        starts == starts_word(chars@, i as int),
{
    let c = chars[i];
    if c == '_' {
        false
    } else if i == 0 {
        true
    } else {
        let p = chars[i - 1];
        let capital = 'A' <= c && c <= 'Z';
        if p == '_' {
            true
        } else if 'a' <= p && p <= 'z' {
            capital
        } else if 'A' <= p && p <= 'Z' {
            capital && i + 1 < chars.len() && 'a' <= chars[i + 1] && chars[i + 1] <= 'z'
        } else {
            false
        }
    }
}

/// Rewrites an identifier in snake_case: `SayHello` becomes `say_hello`,
/// `HTTPServer` becomes `http_server`.
pub fn to_snake_case(ident: &str) -> (out: String)
    ensures
        out@ == snake_case(ident@),
{
    let chars = chars_of(ident);
    let mut out = String::new();
    let mut i: usize = 0;
    while i < chars.len()
        invariant
            i <= chars.len(),
            out@ == snake_prefix(chars@, i as int),
        decreases chars.len() - i,
    {
        let c = chars[i];
        if c != '_' {
            if word_starts_at(&chars, i) && !out.as_str().is_empty() {
                out.push('_');
            }
            out.push(to_lower(c));
        }
        i += 1;
    }
    proof {
        lemma_snake_prefix(chars@, chars@.len() as int);
    }
    out
}

/// Rewrites an identifier in PascalCase: `say_hello` becomes `SayHello`.
pub fn to_pascal_case(ident: &str) -> (out: String)
    ensures
        out@ == pascal_case(ident@),
{
    let chars = chars_of(ident);
    let mut out = String::new();
    let mut i: usize = 0;
    while i < chars.len()
        invariant
            i <= chars.len(),
            out@ == pascal_prefix(chars@, i as int),
        decreases chars.len() - i,
    {
        let c = chars[i];
        if c != '_' {
            if word_starts_at(&chars, i) {
                out.push(to_upper(c));
            } else {
                out.push(c);
            }
        }
        i += 1;
    }
    proof {
        lemma_pascal_prefix(chars@, chars@.len() as int);
    }
    out
}

/// A text that the snake_case rule leaves alone: no capital, no underscore
/// at either end, no two underscores in a row.
pub open spec fn is_snake(t: Seq<char>) -> bool {
    &&& forall|i: int| 0 <= i < t.len() ==> !is_upper(#[trigger] t[i])
    &&& t.len() > 0 ==> t[0] != '_' && t.last() != '_'
    &&& forall|i: int| 0 < i < t.len() && t[i - 1] == '_' ==> #[trigger] t[i] != '_'
}

/// A text that the PascalCase rule leaves alone: no underscore, and no
/// lower-case letter in front.
pub open spec fn is_pascal(t: Seq<char>) -> bool {
    &&& forall|i: int| 0 <= i < t.len() ==> #[trigger] t[i] != '_'
    &&& t.len() > 0 ==> !is_lower(t[0])
}

proof fn lemma_prefix_is_snake(s: Seq<char>, n: int)
    requires
        0 <= n <= s.len(),
    ensures
        is_snake(snake_prefix(s, n)),
    decreases n,
{
    if n > 0 {
        lemma_prefix_is_snake(s, n - 1);
    }
}

proof fn lemma_snake_is_fixed(t: Seq<char>, n: int)
    requires
        is_snake(t),
        0 <= n <= t.len(),
    ensures
        snake_prefix(t, n) == if n > 0 && t[n - 1] == '_' {
            t.take(n - 1)
        } else {
            t.take(n)
        },
    decreases n,
{
    if n > 0 {
        lemma_snake_is_fixed(t, n - 1);
        let c = t[n - 1];
        if c == '_' {
            assert(t[n - 2] != '_');
        } else {
            assert(lower(c) == c);
            if n == 1 {
                assert(snake_prefix(t, n) =~= t.take(n));
            } else if t[n - 2] == '_' {
                assert(t.take(n - 2).len() > 0);
                assert(snake_prefix(t, n) =~= t.take(n));
            } else {
                assert(!starts_word(t, n - 1));
                assert(snake_prefix(t, n) =~= t.take(n));
            }
        }
    }
}

proof fn lemma_prefix_is_pascal(s: Seq<char>, n: int)
    requires
        0 <= n <= s.len(),
    ensures
        is_pascal(pascal_prefix(s, n)),
        pascal_prefix(s, n).len() == 0 ==> forall|j: int| 0 <= j < n ==> s[j] == '_',
    decreases n,
{
    if n > 0 {
        lemma_prefix_is_pascal(s, n - 1);
    }
}

proof fn lemma_pascal_is_fixed(t: Seq<char>, n: int)
    requires
        is_pascal(t),
        0 <= n <= t.len(),
    ensures
        pascal_prefix(t, n) == t.take(n),
    decreases n,
{
    if n > 0 {
        lemma_pascal_is_fixed(t, n - 1);
        assert(pascal_prefix(t, n) =~= t.take(n));
    }
}

/// The snake_case form of any text is left alone by the rule.
pub proof fn lemma_snake_case_is_snake(x: Seq<char>)
    ensures
        is_snake(snake_case(x)),
{
    lemma_snake_prefix(x, x.len() as int);
    lemma_prefix_is_snake(x, x.len() as int);
}

/// The PascalCase form of any text is left alone by the rule.
pub proof fn lemma_pascal_case_is_pascal(x: Seq<char>)
    ensures
        is_pascal(pascal_case(x)),
{
    lemma_pascal_prefix(x, x.len() as int);
    lemma_prefix_is_pascal(x, x.len() as int);
}

/// A snake_case text is its own snake_case form.
pub proof fn lemma_snake_case_fixes_snake(t: Seq<char>)
    requires
        is_snake(t),
    ensures
        snake_case(t) == t,
{
    lemma_snake_prefix(t, t.len() as int);
    lemma_snake_is_fixed(t, t.len() as int);
    assert(t.take(t.len() as int) =~= t);
}

/// A PascalCase text is its own PascalCase form.
pub proof fn lemma_pascal_case_fixes_pascal(t: Seq<char>)
    requires
        is_pascal(t),
    ensures
        pascal_case(t) == t,
{
    lemma_pascal_prefix(t, t.len() as int);
    lemma_pascal_is_fixed(t, t.len() as int);
    assert(t.take(t.len() as int) =~= t);
}

/// Rewriting in snake_case twice gives what rewriting once gives.
pub proof fn lemma_snake_case_idempotent(x: Seq<char>)
    ensures
        snake_case(snake_case(x)) == snake_case(x),
{
    lemma_snake_case_is_snake(x);
    lemma_snake_case_fixes_snake(snake_case(x));
}

/// Rewriting in PascalCase twice gives what rewriting once gives.
pub proof fn lemma_pascal_case_idempotent(x: Seq<char>)
    ensures
        pascal_case(pascal_case(x)) == pascal_case(x),
{
    lemma_pascal_case_is_pascal(x);
    lemma_pascal_case_fixes_pascal(pascal_case(x));
}

} // verus!
