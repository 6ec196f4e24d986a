//! Text as a sequence of characters: comparing, searching, joining and
//! splitting into lines.

use vstd::prelude::*;

verus! {

/// Whether `part` stands in `text` at position `at`.
pub open spec fn occurs_at(text: Seq<char>, part: Seq<char>, at: int) -> bool {
    &&& 0 <= at
    &&& at + part.len() <= text.len()
    &&& text.subrange(at, at + part.len()) == part
}

/// The first position at or after `from` at which `part` stands in `text`.
pub open spec fn find_from(text: Seq<char>, part: Seq<char>, from: int) -> Option<int>
    decreases text.len() + 1 - from,
{
    if from + part.len() > text.len() {
        None
    } else if occurs_at(text, part, from) {
        Some(from)
    } else {
        find_from(text, part, from + 1)
    }
}

/// Whether `text` ends with `part`.
pub open spec fn ends_with(text: Seq<char>, part: Seq<char>) -> bool {
    part.is_suffix_of(text)
}

/// `parts` one after the other, with `separator` between neighbours.
pub open spec fn join(parts: Seq<Seq<char>>, separator: Seq<char>) -> Seq<char>
    decreases parts.len(),
{
    if parts.len() == 0 {
        Seq::empty()
    } else if parts.len() == 1 {
        parts[0]
    } else {
        join(parts.drop_last(), separator) + separator + parts.last()
    }
}

/// `line` without the carriage return that it ends in, if it does.
pub open spec fn without_carriage_return(line: Seq<char>) -> Seq<char> {
    if line.len() > 0 && line.last() == '\r' {
        line.drop_last()
    } else {
        line
    }
}

/// The lines of `text`. A line ends in `"\n"` or `"\r\n"`, neither of which
/// belongs to it; the last line may go without.
pub open spec fn lines(text: Seq<char>) -> Seq<Seq<char>>
    decreases text.len(),
{
    if text.len() == 0 {
        Seq::empty()
    } else {
        match find_from(text, seq!['\n'], 0) {
            Some(end) if 0 <= end < text.len() => {
                seq![without_carriage_return(text.take(end))] + lines(text.skip(end + 1))
            },
            _ => seq![text],
        }
    }
}

/// The texts of `parts`.
pub open spec fn texts(parts: Seq<String>) -> Seq<Seq<char>> {
    parts.map_values(|part: String| part@)
}

/// The texts of `parts`.
pub open spec fn str_texts(parts: Seq<&str>) -> Seq<Seq<char>> {
    parts.map_values(|part: &str| part@)
}

/// The text of an optional string.
pub open spec fn optional_text(text: Option<String>) -> Option<Seq<char>> {
    match text {
        Some(text) => Some(text@),
        None => None,
    }
}

/// What `find_from` finds is the first place: `part` stands there and at no
/// earlier position from `from` on; where it finds nothing, `part` stands
/// nowhere from `from` on.
pub proof fn find_from_is_first(text: Seq<char>, part: Seq<char>, from: int)
    requires
        0 <= from,
    ensures
        match find_from(text, part, from) {
            Some(at) => {
                &&& from <= at
                &&& occurs_at(text, part, at)
                &&& forall|i: int| from <= i < at ==> !occurs_at(text, part, i)
            },
            None => forall|i: int| from <= i ==> !occurs_at(text, part, i),
        },
    decreases text.len() + 1 - from,
{
    if from + part.len() <= text.len() && !occurs_at(text, part, from) {
        find_from_is_first(text, part, from + 1);
    }
}

/// The characters of `text`.
pub fn chars_of(text: &str) -> (chars: Vec<char>)
    ensures
        chars@ == text@,
{
    let mut chars: Vec<char> = Vec::new();
    for c in it: text.chars()
        invariant
            chars@.len() == it.index(),
            chars@ == it.seq().take(it.index()),
            it.seq() == text@,
    {
        chars.push(c);
    }
    chars
}

/// The string of the characters `chars`: `String::from_iter` collects them in
/// their order.
#[verifier::external_body]
fn string_of(chars: &[char]) -> (text: String)
    ensures
        text@ == chars@,
{
    String::from_iter(chars.iter())
}

/// Whether two texts are the same.
pub fn same_text(left: &str, right: &str) -> (same: bool)
    ensures
        same == (left@ == right@),
{
    let a = chars_of(left);
    let b = chars_of(right);
    if a.len() != b.len() {
        return false;
    }
    for i in 0..a.len()
        invariant
            a@.len() == b@.len(),
            a@ == left@,
            b@ == right@,
            forall|j: int| 0 <= j < i ==> a@[j] == b@[j],
    {
        if a[i] != b[i] {
            assert(left@[i as int] != right@[i as int]);
            return false;
        }
    }
    assert(left@ =~= right@);
    true
}

/// Whether `part` stands in `text` at `at`.
fn stands_at(text: &Vec<char>, part: &Vec<char>, at: usize) -> (found: bool)
    requires
        at + part@.len() <= text@.len(),
    ensures
        found == occurs_at(text@, part@, at as int),
{
    let size: usize = text.len();
    for i in 0..part.len()
        invariant
            size == text@.len(),
            at + part@.len() <= size,
            forall|j: int| 0 <= j < i ==> text@[at + j] == part@[j],
    {
        if text[at + i] != part[i] {
            assert(text@.subrange(at as int, at + part@.len())[i as int] != part@[i as int]);
            return false;
        }
    }
    assert(text@.subrange(at as int, at + part@.len()) =~= part@);
    true
}

/// The first position at or after `from` at which `part` stands in `text`.
pub fn find(text: &Vec<char>, part: &Vec<char>, from: usize) -> (position: Option<usize>)
    requires
        from <= text@.len(),
    ensures
        match position {
            Some(at) => {
                &&& find_from(text@, part@, from as int) == Some(at as int)
                &&& at + part@.len() <= text@.len() <= usize::MAX
            },
            None => find_from(text@, part@, from as int) is None,
        },
{
    if part.len() > text.len() {
        return None;
    }
    let last: usize = text.len() - part.len();
    let mut at: usize = from;
    while at <= last
        invariant
            last + part@.len() == text@.len() <= usize::MAX,
            from <= at <= text@.len(),
            find_from(text@, part@, from as int) == find_from(text@, part@, at as int),
        decreases text@.len() + 1 - at,
    {
        if stands_at(text, part, at) {
            return Some(at);
        }
        if at == last {
            assert(find_from(text@, part@, at + 1) is None);
            return None;
        }
        at = at + 1;
    }
    None
}

/// Whether `text` ends with `part`.
pub fn has_suffix(text: &str, part: &str) -> (found: bool)
    ensures
        found == ends_with(text@, part@),
{
    let text_chars = chars_of(text);
    let part_chars = chars_of(part);
    if part_chars.len() > text_chars.len() {
        return false;
    }
    let at: usize = text_chars.len() - part_chars.len();
    stands_at(&text_chars, &part_chars, at)
}

/// `parts` one after the other, with `separator` between neighbours.
pub fn join_strs(parts: &[&str], separator: &str) -> (joined: String)
    ensures
        joined@ == join(str_texts(parts@), separator@),
{
    let mut joined = String::new();
    for i in 0..parts.len()
        invariant
            joined@ == join(str_texts(parts@).take(i as int), separator@),
    {
        if i > 0 {
            joined.append(separator);
        }
        joined.append(parts[i]);
        proof {
            let seen = str_texts(parts@).take(i + 1);
            assert(seen.drop_last() =~= str_texts(parts@).take(i as int));
            assert(seen.last() == parts@[i as int]@);
        }
    }
    assert(str_texts(parts@).take(parts@.len() as int) =~= str_texts(parts@));
    joined
}

/// `parts` one after the other, with `separator` between neighbours.
pub fn join_strings(parts: &Vec<String>, separator: &str) -> (joined: String)
    ensures
        joined@ == join(texts(parts@), separator@),
{
    let mut joined = String::new();
    for i in 0..parts.len()
        invariant
            joined@ == join(texts(parts@).take(i as int), separator@),
    {
        if i > 0 {
            joined.append(separator);
        }
        joined.append(parts[i].as_str());
        proof {
            let seen = texts(parts@).take(i + 1);
            assert(seen.drop_last() =~= texts(parts@).take(i as int));
            assert(seen.last() == parts@[i as int]@);
        }
    }
    assert(texts(parts@).take(parts@.len() as int) =~= texts(parts@));
    joined
}

/// The characters of `text` from `from` up to, and without, `to`.
pub fn slice_of(text: &Vec<char>, from: usize, to: usize) -> (part: String)
    requires
        from <= to <= text@.len(),
    ensures
        part@ == text@.subrange(from as int, to as int),
{
    string_of(vstd::slice::slice_subrange(text.as_slice(), from, to))
}

/// The lines of `text`.
pub fn split_lines(text: &str) -> (split: Vec<String>)
    ensures
        texts(split@) == lines(text@),
{
    let chars = chars_of(text);
    let newline: Vec<char> = vec!['\n'];
    assert(newline@ =~= seq!['\n']);
    let mut split: Vec<String> = Vec::new();
    let mut start: usize = 0;
    assert(chars@.skip(0) =~= chars@);
    assert(texts(split@) + lines(chars@) =~= lines(chars@));
    while start < chars.len()
        invariant
            start <= chars@.len(),
            newline@ == seq!['\n'],
            texts(split@) + lines(chars@.skip(start as int)) == lines(chars@),
        decreases chars@.len() - start,
    {
        let ghost rest = chars@.skip(start as int);
        let ghost before = texts(split@);
        proof {
            find_from_shift(chars@, newline@, start as int, 0);
            find_from_is_first(chars@, newline@, start as int);
        }
        match find(&chars, &newline, start) {
            Some(end) => {
                assert(rest.take(end - start) =~= chars@.subrange(start as int, end as int));
                assert(rest.skip(end - start + 1) =~= chars@.skip(end + 1));
                let stop: usize = if end > start && chars[end - 1] == '\r' {
                    end - 1
                } else {
                    end
                };
                let line = slice_of(&chars, start, stop);
                assert(line@ =~= without_carriage_return(rest.take(end - start)));
                split.push(line);
                start = end + 1;
                assert(texts(split@) =~= before.push(line@));
                assert(texts(split@) + lines(chars@.skip(start as int)) =~= before + (seq![line@]
                    + lines(chars@.skip(start as int))));
            },
            None => {
                let line = slice_of(&chars, start, chars.len());
                assert(line@ =~= rest);
                split.push(line);
                start = chars.len();
                assert(texts(split@) =~= before.push(line@));
                assert(chars@.skip(start as int) =~= Seq::<char>::empty());
                assert(texts(split@) + lines(chars@.skip(start as int)) =~= before + seq![rest]);
            },
        }
    }
    assert(chars@.skip(start as int) =~= Seq::<char>::empty());
    assert(texts(split@) + Seq::<Seq<char>>::empty() =~= texts(split@));
    split
}

/// Searching from `start + from` in `text` is searching from `from` in what is
/// left of `text` behind its first `start` characters.
proof fn find_from_shift(text: Seq<char>, part: Seq<char>, start: int, from: int)
    requires
        0 <= start <= text.len(),
        0 <= from,
    ensures
        find_from(text, part, start + from) == match find_from(text.skip(start), part, from) {
            Some(at) => Some(start + at),
            None => None,
        },
    decreases text.len() + 1 - start - from,
{
    let rest = text.skip(start);
    if from + part.len() <= rest.len() {
        assert(rest.subrange(from, from + part.len()) =~= text.subrange(
            start + from,
            start + from + part.len(),
        ));
        if !occurs_at(rest, part, from) {
            find_from_shift(text, part, start, from + 1);
        }
    }
}

/// Joining may begin at the front.
proof fn join_from_front(first: Seq<char>, rest: Seq<Seq<char>>, separator: Seq<char>)
    requires
        rest.len() > 0,
    ensures
        join(seq![first] + rest, separator) == first + separator + join(rest, separator),
    decreases rest.len(),
{
    let all = seq![first] + rest;
    assert(all.last() == rest.last());
    if rest.len() == 1 {
        assert(all.drop_last() =~= seq![first]);
        assert(join(all.drop_last(), separator) == first);
    } else {
        let front = rest.drop_last();
        assert(all.drop_last() =~= seq![first] + front);
        join_from_front(first, front, separator);
        assert(join(all, separator) =~= first + separator + join(rest, separator));
    }
}

/// Splitting a text into lines and joining them gives the text back, without the
/// newline at its end. Carriage returns are left out: before a newline they are
/// lost.
pub proof fn joined_lines_are_the_text(text: Seq<char>)
    requires
        !text.contains('\r'),
    ensures
        join(lines(text), "\n"@) == if text.len() > 0 && text.last() == '\n' {
            text.drop_last()
        } else {
            text
        },
    decreases text.len(),
{
    let newline = seq!['\n'];
    reveal_strlit("\n");
    assert("\n"@ =~= newline);
    find_from_is_first(text, newline, 0);
    if text.len() == 0 {
        assert(join(lines(text), newline) =~= text);
    } else {
        match find_from(text, newline, 0) {
            Some(end) => {
                let line = text.take(end);
                let rest = text.skip(end + 1);
                assert(text.subrange(end, end + 1)[0] == '\n');
                assert(text[end] == '\n');
                assert(without_carriage_return(line) == line) by {
                    if line.len() > 0 && line.last() == '\r' {
                        assert(text[end - 1] == '\r');
                        assert(text.contains('\r'));
                    }
                }
                assert(!rest.contains('\r')) by {
                    if rest.contains('\r') {
                        let k = choose|k: int| 0 <= k < rest.len() && rest[k] == '\r';
                        assert(text[end + 1 + k] == '\r');
                    }
                }
                joined_lines_are_the_text(rest);
                if rest.len() == 0 {
                    assert(lines(rest) =~= Seq::empty());
                    assert(lines(text) =~= seq![line]);
                    assert(text.drop_last() =~= line);
                } else {
                    assert(lines(rest).len() > 0);
                    join_from_front(line, lines(rest), newline);
                    assert(text =~= line + newline + rest);
                    assert(text.last() == rest.last());
                    if rest.last() == '\n' {
                        assert(text.drop_last() =~= line + newline + rest.drop_last());
                    }
                }
            },
            None => {
                assert(lines(text) =~= seq![text]);
                if text.last() == '\n' {
                    assert(text.subrange(text.len() - 1, text.len() as int) =~= newline);
                    assert(occurs_at(text, newline, text.len() - 1));
                }
            },
        }
    }
}

/// A part stands at a place exactly where it fits there and each of its
/// characters is the one of the text at that place.
pub proof fn a_part_stands_by_its_characters(text: Seq<char>, part: Seq<char>, at: int)
    ensures
        occurs_at(text, part, at) <==> 0 <= at && at + part.len() <= text.len() && forall|i: int|
            0 <= i < part.len() ==> part[i] == #[trigger] text[at + i],
{
    if 0 <= at && at + part.len() <= text.len() {
        let found = text.subrange(at, at + part.len());
        if found == part {
            assert forall|i: int| 0 <= i < part.len() implies part[i] == #[trigger] text[at + i] by {
                assert(found[i] == text[at + i]);
            }
        }
        if forall|i: int| 0 <= i < part.len() ==> part[i] == #[trigger] text[at + i] {
            assert forall|i: int| 0 <= i < part.len() implies found[i] == part[i] by {
                assert(part[i] == text[at + i]);
            }
            assert(found =~= part);
        }
    }
}

/// A text ends with a part exactly where it is something followed by the part.
pub proof fn endings_are_what_is_put_behind(text: Seq<char>, part: Seq<char>)
    ensures
        ends_with(text, part) <==> exists|front: Seq<char>| text == #[trigger] front.add(part),
{
    if ends_with(text, part) {
        assert(text =~= text.take(text.len() - part.len()).add(part));
    }
    if exists|front: Seq<char>| text == #[trigger] front.add(part) {
        let front = choose|front: Seq<char>| text == #[trigger] front.add(part);
        assert(text.subrange(text.len() - part.len(), text.len() as int) =~= part);
    }
}

/// Nothing joined is nothing, one part joined is that part, and two lists joined
/// as one are the two joined, with the separator between them.
pub proof fn joining_goes_list_by_list(
    left: Seq<Seq<char>>,
    right: Seq<Seq<char>>,
    one: Seq<char>,
    separator: Seq<char>,
)
    ensures
        join(Seq::empty(), separator) == Seq::<char>::empty(),
        join(seq![one], separator) == one,
        left.len() > 0 && right.len() > 0 ==> join(left + right, separator) == join(left, separator)
            + separator + join(right, separator),
    decreases right.len(),
{
    if left.len() > 0 && right.len() > 0 {
        let both = left + right;
        assert(both.last() == right.last());
        if right.len() == 1 {
            assert(both.drop_last() =~= left);
        } else {
            let front = right.drop_last();
            assert(both.drop_last() =~= left + front);
            joining_goes_list_by_list(left, front, one, separator);
            assert(join(both, separator) =~= join(left, separator) + separator + join(
                right,
                separator,
            ));
        }
    }
}

/// A text without a newline is one line, or none where it is empty; a carriage
/// return at its end belongs to the line.
pub proof fn a_text_without_newline_is_one_line(text: Seq<char>)
    requires
        !text.contains('\n'),
    ensures
        lines(text) == if text.len() == 0 {
            Seq::<Seq<char>>::empty()
        } else {
            seq![text]
        },
{
    find_from_is_first(text, seq!['\n'], 0);
    match find_from(text, seq!['\n'], 0) {
        Some(at) => {
            assert(text.subrange(at, at + 1)[0] == '\n');
            assert(text[at] == '\n');
        },
        None => {},
    }
}

/// The first line ends at the first newline, and what follows that is split in
/// the same way. One carriage return before the newline belongs to the line end
/// and all else before it to the line.
pub proof fn lines_end_at_newlines(line: Seq<char>, rest: Seq<char>)
    requires
        !line.contains('\n'),
    ensures
        !(line.len() > 0 && line.last() == '\r') ==> lines(line + seq!['\n'] + rest) == seq![line]
            + lines(rest),
        lines(line + seq!['\r', '\n'] + rest) == seq![line] + lines(rest),
{
    let ended = line + seq!['\r'];
    assert(!ended.contains('\n')) by {
        if ended.contains('\n') {
            let k = choose|k: int| 0 <= k < ended.len() && ended[k] == '\n';
            if k < line.len() {
                assert(line[k] == '\n');
            }
        }
    }
    first_line(line, rest);
    first_line(ended, rest);
    assert(ended.drop_last() =~= line);
    assert(line + seq!['\r', '\n'] + rest =~= ended + seq!['\n'] + rest);
}

proof fn first_line(line: Seq<char>, rest: Seq<char>)
    requires
        !line.contains('\n'),
    ensures
        lines(line + seq!['\n'] + rest) == seq![without_carriage_return(line)] + lines(rest),
{
    let newline = seq!['\n'];
    let text = line + newline + rest;
    let end = line.len() as int;
    assert(text.subrange(end, end + 1) =~= newline);
    assert(occurs_at(text, newline, end));
    find_from_is_first(text, newline, 0);
    assert forall|i: int| 0 <= i < end implies !occurs_at(text, newline, i) by {
        if occurs_at(text, newline, i) {
            assert(text.subrange(i, i + 1)[0] == text[i]);
            assert(line[i] == '\n');
        }
    }
    assert(find_from(text, newline, 0) == Some(end));
    assert(text.take(end) =~= line);
    assert(text.skip(end + 1) =~= rest);
}

/// Whether `line` can be a line of a text with newlines for line ends.
pub open spec fn is_plain_line(line: Seq<char>) -> bool {
    !line.contains('\n') && !line.contains('\r')
}

/// Lines that are joined by newlines, with one more at the end, are split into
/// the same lines again.
pub proof fn joined_lines_are_split_again(parts: Seq<Seq<char>>)
    requires
        parts.len() > 0,
        forall|i: int| 0 <= i < parts.len() ==> is_plain_line(#[trigger] parts[i]),
    ensures
        lines(join(parts, "\n"@) + seq!['\n']) == parts,
    decreases parts.len(),
{
    reveal_strlit("\n");
    assert("\n"@ =~= seq!['\n']);
    let first = parts[0];
    assert(is_plain_line(first));
    assert(!(first.len() > 0 && first.last() == '\r')) by {
        if first.len() > 0 && first.last() == '\r' {
            assert(first.contains('\r'));
        }
    }
    let rest = parts.skip(1);
    if rest.len() == 0 {
        lines_end_at_newlines(first, Seq::empty());
        assert(first + seq!['\n'] + Seq::<char>::empty() =~= join(parts, "\n"@) + seq!['\n']);
        assert(lines(Seq::<char>::empty()) =~= Seq::empty());
        assert(parts =~= seq![first] + lines(Seq::<char>::empty()));
    } else {
        assert forall|i: int| 0 <= i < rest.len() implies is_plain_line(#[trigger] rest[i]) by {
            assert(rest[i] == parts[i + 1]);
        }
        joined_lines_are_split_again(rest);
        join_from_front(first, rest, "\n"@);
        assert(parts =~= seq![first] + rest);
        let tail = join(rest, "\n"@) + seq!['\n'];
        lines_end_at_newlines(first, tail);
        assert(first + seq!['\n'] + tail =~= join(parts, "\n"@) + seq!['\n']);
    }
}

/// The texts of a list are those of its members, one for one.
pub proof fn texts_are_those_of_the_members(
    strings: Seq<String>,
    strs: Seq<&str>,
    text: String,
    i: int,
)
    ensures
        texts(strings).len() == strings.len(),
        0 <= i < strings.len() ==> texts(strings)[i] == strings[i]@,
        str_texts(strs).len() == strs.len(),
        0 <= i < strs.len() ==> str_texts(strs)[i] == strs[i]@,
        optional_text(Some(text)) == Some(text@),
        optional_text(None) is None,
{
}

} // verus!
