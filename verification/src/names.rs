//! Names of mappings, and what the text of an error tells.
use vstd::prelude::*;

use crate::layout::SHM_MAX_NAME;
use crate::text;

verus! {

/// Whether an ASCII letter, an ASCII digit or an underscore.
pub open spec fn is_plain(c: char) -> bool {
    ||| 'a' <= c && c <= 'z'
    ||| 'A' <= c && c <= 'Z'
    ||| '0' <= c && c <= '9'
    ||| c == '_'
}

/// The first characters of `name`, as many as every platform takes, everything else than
/// ASCII letters, digits and underscores made an underscore.
pub open spec fn normalized(name: Seq<char>) -> Seq<char> {
    Seq::new(
        if name.len() < SHM_MAX_NAME {
            name.len()
        } else {
            SHM_MAX_NAME as nat
        },
        |i: int|
            if is_plain(name[i]) {
                name[i]
            } else {
                '_'
            },
    )
}

/// Makes any text a name for a mapping.
pub fn normalize_shm_name(name: &str) -> (normal: String)
    ensures
        normal@ == normalized(name@),
{
    let mut normal = String::new();
    let len: usize = name.unicode_len();
    let count: usize = if len < SHM_MAX_NAME {
        len
    } else {
        SHM_MAX_NAME
    };
    let mut i: usize = 0;
    while i < count
        invariant
            len == name@.len(),
            count == normalized(name@).len(),
            count <= len,
            i <= count,
            normal@ =~= normalized(name@).take(i as int),
        decreases count - i,
    {
        let c: char = name.get_char(i);
        if ('a' <= c && c <= 'z') || ('A' <= c && c <= 'Z') || ('0' <= c && c <= '9') || c == '_' {
            normal.append(name.substring_char(i, i + 1));
        } else {
            proof {
                reveal_strlit("_");
            }
            normal.append("_");
        }
        i = i + 1;
    }
    normal
}

/// Law: a normalized name is short, holds nothing but ASCII letters, digits and underscores,
/// and is not changed by normalizing it again.
pub proof fn normalizing_settles(name: Seq<char>)
    ensures
        normalized(name).len() <= SHM_MAX_NAME,
        forall|i: int| 0 <= i < normalized(name).len() ==> is_plain(#[trigger] normalized(name)[i]),
        normalized(normalized(name)) == normalized(name),
{
    assert(normalized(normalized(name)) =~= normalized(name));
}

/// Number of characters `c` that `s` has from `i` on before any other.
pub open spec fn run_of(s: Seq<char>, c: char, i: int) -> int
    decreases s.len() - i,
{
    if 0 <= i < s.len() && s[i] == c {
        1 + run_of(s, c, i + 1)
    } else {
        0
    }
}

/// `name` without its leading slashes, and without the backslashes that lead what is left.
pub open spec fn stripped(name: Seq<char>) -> Seq<char> {
    let slashes = run_of(name, '/', 0);
    name.skip(slashes + run_of(name, '\\', slashes))
}

/// Whether a name can be that of a file in a directory.
pub open spec fn is_file_name(s: Seq<char>) -> bool {
    s.len() > 0 && !s.contains('/') && !s.contains('\\') && !s.contains(':')
}

fn count_run(chars: &Vec<char>, c: char, from: usize) -> (count: usize)
    requires
        from <= chars@.len(),
    ensures
        count == run_of(chars@, c, from as int),
        from + count <= chars@.len(),
{
    let mut i: usize = from;
    while i < chars.len() && chars[i] == c
        invariant
            from <= i <= chars@.len(),
            run_of(chars@, c, from as int) == (i - from) + run_of(chars@, c, i as int),
        decreases chars@.len() - i,
    {
        i = i + 1;
    }
    i - from
}

fn has_char(chars: &Vec<char>, c: char, from: usize) -> (found: bool)
    requires
        from <= chars@.len(),
    ensures
        found == chars@.skip(from as int).contains(c),
{
    let mut i: usize = from;
    while i < chars.len()
        invariant
            from <= i <= chars@.len(),
            forall|k: int| from <= k < i ==> chars@[k] != c,
        decreases chars@.len() - i,
    {
        if chars[i] == c {
            assert(chars@.skip(from as int)[i - from] == c);
            return true;
        }
        i = i + 1;
    }
    assert forall|k: int| 0 <= k < chars@.len() - from implies #[trigger] chars@.skip(from as int)[k] != c by {
        assert(chars@[from + k] != c);
    }
    false
}

/// The name of the file that stands for a mapping, or nothing where the name could lead to
/// another file.
pub fn normalize_plain_shmem_name(shm_name: &str) -> (plain: Option<&str>)
    ensures
        plain is Some <==> is_file_name(stripped(shm_name@)),
        plain matches Some(p) ==> p@ == stripped(shm_name@),
{
    let chars: Vec<char> = text::to_chars(shm_name);
    let slashes: usize = count_run(&chars, '/', 0);
    let backslashes: usize = count_run(&chars, '\\', slashes);
    let start: usize = slashes + backslashes;
    let len: usize = chars.len();
    if start == len || has_char(&chars, '/', start) || has_char(&chars, '\\', start) || has_char(&chars, ':', start) {
        return None;
    }
    assert(shm_name@.subrange(start as int, len as int) =~= stripped(shm_name@));
    Some(shm_name.substring_char(start, len))
}

/// Whether an error says that there is no such mapping.
pub open spec fn tells_not_found(message: Seq<char>) -> bool {
    let lower = text::lowered(message);
    ||| text::contains(lower, "not found"@)
    ||| text::contains(lower, "no such file"@)
    ||| text::contains(lower, "cannot find"@)
    ||| text::contains(lower, "os error 2"@)
}

/// Whether an error says that there is no such mapping.
pub fn is_not_found_error(message: &str) -> (told: bool)
    ensures
        told == tells_not_found(message@),
{
    text::has_lowered(message, "not found") || text::has_lowered(message, "no such file")
        || text::has_lowered(message, "cannot find") || text::has_lowered(message, "os error 2")
}

/// Whether an error says that the mapping exists already.
pub open spec fn tells_already_exists(message: Seq<char>) -> bool {
    let lower = text::lowered(message);
    ||| text::contains(lower, "already exists"@)
    ||| text::contains(lower, "os error 17"@)
    ||| text::contains(lower, "os error 183"@)
    ||| text::contains(lower, "error 183"@)
    ||| text::contains(lower, "已存在"@)
}

/// Whether an error says that the mapping exists already.
pub fn is_already_exists_error(message: &str) -> (told: bool)
    ensures
        told == tells_already_exists(message@),
{
    text::has_lowered(message, "already exists") || text::has_lowered(message, "os error 17")
        || text::has_lowered(message, "os error 183") || text::has_lowered(message, "error 183")
        || text::has_lowered(message, "已存在")
}

/// Whether an error says that the publisher is closed.
pub open spec fn tells_publisher_closed(message: Seq<char>) -> bool {
    ||| text::contains(message, "共享内存发布器已关闭"@)
    ||| text::contains(message, "共享内存发布通道已关闭"@)
}

/// Whether an error says that the publisher is closed.
pub fn is_publisher_closed_error(message: &str) -> (told: bool)
    ensures
        told == tells_publisher_closed(message@),
{
    text::has(message, "共享内存发布器已关闭") || text::has(message, "共享内存发布通道已关闭")
}

/// Whether an error says that what a handler needs has come to its end.
pub open spec fn tells_handler_ended(message: Seq<char>) -> bool {
    let lower = text::lowered(message);
    ||| text::contains(lower, "cannot schedule new futures after shutdown"@)
    ||| text::contains(lower, "cannot schedule new futures after interpreter shutdown"@)
    ||| text::contains(lower, "event loop is closed"@)
}

/// Whether an error says that what a handler needs has come to its end.
pub fn is_handler_lifecycle_error(message: &str) -> (told: bool)
    ensures
        told == tells_handler_ended(message@),
{
    text::has_lowered(message, "cannot schedule new futures after shutdown") || text::has_lowered(
        message,
        "cannot schedule new futures after interpreter shutdown",
    ) || text::has_lowered(message, "event loop is closed")
}

/// Law: normalizing keeps positions.  A name keeps its first 31 characters at most; each of
/// them stays where it is if it is an ASCII letter, a digit or an underscore, and becomes an
/// underscore otherwise.
pub proof fn normalizing_keeps_positions(name: Seq<char>, i: int)
    requires
        0 <= i < name.len(),
        i < 31,
    ensures
        normalized(name).len() == (if name.len() < 31 {
            name.len()
        } else {
            31
        }),
        ({
            let c = name[i];
            let stays = 'a' <= c && c <= 'z' || 'A' <= c && c <= 'Z' || '0' <= c && c <= '9' || c == '_';
            normalized(name)[i] == (if stays {
                c
            } else {
                '_'
            })
        }),
{
}

/// Law: only the first 31 characters of a name count, and what precedes a character does not
/// change what becomes of it.
pub proof fn normalizing_goes_by_the_first_characters(name: Seq<char>, more: Seq<char>, n: int)
    requires
        0 <= n <= name.len(),
    ensures
        name.len() >= 31 ==> normalized(name + more) == normalized(name),
        name.len() >= 31 ==> normalized(name) == normalized(name.take(31)),
        n <= 31 ==> normalized(name.take(n)) == normalized(name).take(n),
        normalized(Seq::<char>::empty()) == Seq::<char>::empty(),
{
    if name.len() >= 31 {
        assert(normalized(name + more) =~= normalized(name));
        assert(normalized(name) =~= normalized(name.take(31)));
    }
    if n <= 31 {
        assert(normalized(name.take(n)) =~= normalized(name).take(n));
    }
}

proof fn lemma_run(s: Seq<char>, c: char, i: int)
    requires
        0 <= i <= s.len(),
    ensures
        0 <= run_of(s, c, i) <= s.len() - i,
        forall|k: int| i <= k < i + run_of(s, c, i) ==> #[trigger] s[k] == c,
        i + run_of(s, c, i) < s.len() ==> s[i + run_of(s, c, i)] != c,
    decreases s.len() - i,
{
    if i < s.len() && s[i] == c {
        lemma_run(s, c, i + 1);
    }
}

/// Law: what is stripped off a name is slashes, then backslashes, and all of them: what is left
/// begins with no backslash, and begins with a slash only behind a backslash.
pub proof fn stripping_takes_leading_separators(name: Seq<char>) -> (cut: (int, int))
    ensures
        0 <= cut.0 <= cut.1 <= name.len(),
        forall|k: int| 0 <= k < cut.0 ==> #[trigger] name[k] == '/',
        forall|k: int| cut.0 <= k < cut.1 ==> #[trigger] name[k] == '\\',
        cut.0 < name.len() ==> name[cut.0] != '/',
        cut.1 < name.len() ==> name[cut.1] != '\\',
        stripped(name) == name.skip(cut.1),
{
    let slashes = run_of(name, '/', 0);
    lemma_run(name, '/', 0);
    lemma_run(name, '\\', slashes);
    (slashes, slashes + run_of(name, '\\', slashes))
}

/// Law: a name without leading separators stays as it is, and is that of a file exactly if it
/// holds a character, and no slash, backslash or colon.
pub proof fn plain_names_stay(name: Seq<char>)
    requires
        name.len() > 0 ==> name[0] != '/' && name[0] != '\\',
    ensures
        stripped(name) == name,
        is_file_name(stripped(name)) <==> name.len() > 0 && forall|i: int|
            0 <= i < name.len() ==> #[trigger] name[i] != '/' && name[i] != '\\' && name[i] != ':',
{
    let cut = stripping_takes_leading_separators(name);
    assert(name.skip(0) =~= name);
    if !is_file_name(name) && name.len() > 0 {
        if name.contains('/') {
            let i = choose|i: int| 0 <= i < name.len() && name[i] == '/';
            assert(name[i] == '/');
        } else if name.contains('\\') {
            let i = choose|i: int| 0 <= i < name.len() && name[i] == '\\';
            assert(name[i] == '\\');
        } else {
            let i = choose|i: int| 0 <= i < name.len() && name[i] == ':';
            assert(name[i] == ':');
        }
    }
}

/// Whether `word` stands in `message` in small or capital ASCII letters.
pub open spec fn says(message: Seq<char>, word: Seq<char>) -> bool {
    exists|i: int| #[trigger] says_at(message, word, i)
}

/// Whether `word` stands in `message` from character `i` on, in small or capital ASCII letters.
pub open spec fn says_at(message: Seq<char>, word: Seq<char>, i: int) -> bool {
    &&& 0 <= i <= message.len() - word.len()
    &&& forall|k: int|
        0 <= k < word.len() ==> {
            let c = #[trigger] message[i + k];
            ||| c == word[k] && !('A' <= c && c <= 'Z')
            ||| 'A' <= c && c <= 'Z' && word[k] == (c as u32 + 32) as char
        }
}

proof fn lemma_says(message: Seq<char>, word: Seq<char>)
    ensures
        text::contains(text::lowered(message), word) <==> says(message, word),
{
    let low = text::lowered(message);
    if text::contains(low, word) {
        let i = choose|i: int| text::occurs_at(low, word, i);
        assert forall|k: int| 0 <= k < word.len() implies ({
            let c = #[trigger] message[i + k];
            ||| c == word[k] && !('A' <= c && c <= 'Z')
            ||| 'A' <= c && c <= 'Z' && word[k] == (c as u32 + 32) as char
        }) by {
            assert(low.subrange(i, i + word.len())[k] == word[k]);
            assert(low[i + k] == text::lower(message[i + k]));
        }
        assert(says_at(message, word, i));
    }
    if says(message, word) {
        let i = choose|i: int| says_at(message, word, i);
        assert forall|k: int| 0 <= k < word.len() implies low.subrange(i, i + word.len())[k] == #[trigger] word[k] by {
            let c = message[i + k];
            assert(low[i + k] == text::lower(c));
            assert(text::lower(c) == word[k]);
        }
        assert(low.subrange(i, i + word.len()) =~= word);
        assert(text::occurs_at(low, word, i));
    }
}

/// Law: errors are told by these words and no others, whatever stands around them and in
/// capital or small letters.
pub proof fn errors_are_told_by_words(message: Seq<char>)
    ensures
        tells_not_found(message) <==> says(message, "not found"@) || says(message, "no such file"@) || says(
            message,
            "cannot find"@,
        ) || says(message, "os error 2"@),
        tells_already_exists(message) <==> says(message, "already exists"@) || says(message, "os error 17"@) || says(
            message,
            "error 183"@,
        ) || says(message, "已存在"@),
        tells_handler_ended(message) <==> says(message, "cannot schedule new futures after shutdown"@) || says(
            message,
            "cannot schedule new futures after interpreter shutdown"@,
        ) || says(message, "event loop is closed"@),
        tells_publisher_closed(message) <==> text::stands_in(message, "共享内存发布器已关闭"@) || text::stands_in(
            message,
            "共享内存发布通道已关闭"@,
        ),
{
    lemma_says(message, "not found"@);
    lemma_says(message, "no such file"@);
    lemma_says(message, "cannot find"@);
    lemma_says(message, "os error 2"@);
    lemma_says(message, "already exists"@);
    lemma_says(message, "os error 17"@);
    lemma_says(message, "os error 183"@);
    lemma_says(message, "error 183"@);
    lemma_says(message, "已存在"@);
    lemma_says(message, "cannot schedule new futures after shutdown"@);
    lemma_says(message, "cannot schedule new futures after interpreter shutdown"@);
    lemma_says(message, "event loop is closed"@);
    lemma_stands_in(message, "共享内存发布器已关闭"@);
    lemma_stands_in(message, "共享内存发布通道已关闭"@);
    if says(message, "os error 183"@) {
        let i = choose|i: int| says_at(message, "os error 183"@, i);
        reveal_strlit("os error 183");
        reveal_strlit("error 183");
        assert forall|k: int| 0 <= k < 9 implies ({
            let c = #[trigger] message[i + 3 + k];
            ||| c == "error 183"@[k] && !('A' <= c && c <= 'Z')
            ||| 'A' <= c && c <= 'Z' && "error 183"@[k] == (c as u32 + 32) as char
        }) by {
            assert("error 183"@[k] == "os error 183"@[k + 3]);
            assert(message[i + (k + 3)] == message[i + 3 + k]);
        }
        assert(says_at(message, "error 183"@, i + 3));
    }
}

proof fn lemma_stands_in(message: Seq<char>, word: Seq<char>)
    ensures
        text::contains(message, word) <==> text::stands_in(message, word),
{
    if text::contains(message, word) {
        let i = choose|i: int| text::occurs_at(message, word, i);
        let before = message.take(i);
        let after = message.skip(i + word.len());
        assert(message =~= before + message.subrange(i, i + word.len()) + after);
        assert(message == before + word + after);
    }
    if text::stands_in(message, word) {
        let (before, after) = choose|before: Seq<char>, after: Seq<char>| message == #[trigger] (before + word + after);
        let i = before.len() as int;
        assert(message.subrange(i, i + word.len()) =~= word);
        assert(text::occurs_at(message, word, i));
    }
}

} // verus!
