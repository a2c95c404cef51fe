//! Lines and comma-separated columns.

use vstd::prelude::*;
use vstd::string::*;

use crate::json::texts;
use crate::text::{chars_of, occurs_at, str_eq, string_range};

verus! {

/// Where `c` stands first in a text, or the length of the text.
pub open spec fn index_of_char(s: Seq<char>, c: char) -> int
    decreases s.len(),
{
    if s.len() == 0 || s[0] == c {
        0
    } else {
        1 + index_of_char(s.skip(1), c)
    }
}

pub proof fn lemma_index_of_char(s: Seq<char>, c: char)
    ensures
        0 <= index_of_char(s, c) <= s.len(),
        forall|i: int| 0 <= i < index_of_char(s, c) ==> s[i] != c,
        index_of_char(s, c) < s.len() ==> s[index_of_char(s, c)] == c,
    decreases s.len(),
{
    if s.len() > 0 && s[0] != c {
        let t = s.skip(1);
        lemma_index_of_char(t, c);
        assert forall|i: int| 0 <= i < index_of_char(s, c) implies s[i] != c by {
            if i > 0 {
                assert(s[i] == t[i - 1]);
            }
        }
        if index_of_char(s, c) < s.len() {
            assert(s[index_of_char(s, c)] == t[index_of_char(t, c)]);
        }
    }
}

pub proof fn lemma_index_is(s: Seq<char>, c: char, k: int)
    requires
        0 <= k <= s.len(),
        forall|i: int| 0 <= i < k ==> s[i] != c,
        k < s.len() ==> s[k] == c,
    ensures
        index_of_char(s, c) == k,
    decreases s.len(),
{
    lemma_index_of_char(s, c);
    let j = index_of_char(s, c);
    if j < k {
        assert(s[j] != c);
    } else if k < j {
        assert(s[k] != c);
    }
}

/// The parts of a text between the separators; a text without one is its only part.
pub open spec fn split_text(s: Seq<char>, c: char) -> Seq<Seq<char>>
    decreases s.len(),
{
    let k = index_of_char(s, c);
    if k < 0 || k >= s.len() {
        seq![s]
    } else {
        seq![s.take(k)] + split_text(s.skip(k + 1), c)
    }
}

/// The lines of a text. A line ends with a line feed, which may follow a carriage return;
/// neither belongs to the line. The last line may lack its end.
pub open spec fn lines_of(s: Seq<char>) -> Seq<Seq<char>>
    decreases s.len(),
{
    let k = index_of_char(s, '\n');
    if s.len() == 0 {
        Seq::empty()
    } else if k < 0 || k >= s.len() {
        seq![s]
    } else {
        seq![without_return(s.take(k))] + lines_of(s.skip(k + 1))
    }
}

/// A line without the carriage return at its end.
pub open spec fn without_return(s: Seq<char>) -> Seq<char> {
    if s.len() > 0 && s.last() == '\r' {
        s.drop_last()
    } else {
        s
    }
}

/// Where `c` stands first from a position on, or the end of the text.
pub fn find_char(v: &Vec<char>, from: usize, c: char) -> (r: usize)
    requires
        from <= v.len(),
    ensures
        from <= r <= v.len(),
        r - from == index_of_char(v@.skip(from as int), c),
{
    let ghost s = v@.skip(from as int);
    let mut i: usize = from;
    while i < v.len() && v[i] != c
        invariant
            from <= i <= v.len(),
            s == v@.skip(from as int),
            forall|j: int| 0 <= j < i - from ==> s[j] != c,
        decreases v.len() - i,
    {
        assert(s[i - from] == v@[i as int]);
        i = i + 1;
    }
    proof {
        if i < v.len() {
            assert(s[i - from] == v@[i as int]);
        }
        lemma_index_is(s, c, i - from);
    }
    i
}

/// The parts of a text between the separators.
pub fn split(s: &str, c: char) -> (r: Vec<String>)
    ensures
        texts(r@) == split_text(s@, c),
{
    let v = chars_of(s);
    let mut parts: Vec<String> = Vec::new();
    let mut from: usize = 0;
    let mut more = true;
    proof {
        assert(v@.skip(0) =~= v@);
        assert(texts(parts@) + split_text(v@.skip(0), c) =~= split_text(s@, c));
    }
    while more
        invariant
            from <= v.len(),
            v@ == s@,
            more ==> texts(parts@) + split_text(v@.skip(from as int), c) == split_text(s@, c),
            !more ==> texts(parts@) == split_text(s@, c),
        decreases v.len() - from, more as int,
    {
        let ghost rest = v@.skip(from as int);
        let ghost before = texts(parts@);
        let end: usize = find_char(&v, from, c);
        let part = string_range(&v, from, end);
        parts.push(part);
        proof {
            lemma_index_of_char(rest, c);
            assert(texts(parts@) =~= before.push(part@));
            assert(part@ =~= rest.take(end - from));
        }
        if end == v.len() {
            proof {
                assert(rest.take(end - from) =~= rest);
                assert(before + seq![rest] =~= before.push(rest));
            }
            more = false;
        } else {
            proof {
                assert(rest.skip(end - from + 1) =~= v@.skip(end + 1));
                let tail = split_text(v@.skip(end + 1), c);
                assert(before + (seq![rest.take(end - from)] + tail) =~= before.push(
                    rest.take(end - from),
                ) + tail);
            }
            from = end + 1;
        }
    }
    parts
}

/// The lines of a text.
pub fn lines(s: &str) -> (r: Vec<String>)
    ensures
        texts(r@) == lines_of(s@),
{
    let v = chars_of(s);
    let mut out: Vec<String> = Vec::new();
    let mut from: usize = 0;
    proof {
        assert(v@.skip(0) =~= v@);
        assert(texts(out@) + lines_of(v@.skip(0)) =~= lines_of(s@));
    }
    while from < v.len()
        invariant
            from <= v.len(),
            v@ == s@,
            texts(out@) + lines_of(v@.skip(from as int)) == lines_of(s@),
        decreases v.len() - from,
    {
        let ghost rest = v@.skip(from as int);
        let ghost before = texts(out@);
        let end: usize = find_char(&v, from, '\n');
        proof {
            lemma_index_of_char(rest, '\n');
        }
        if end == v.len() {
            let line = string_range(&v, from, end);
            out.push(line);
            proof {
                assert(line@ =~= rest);
                assert(texts(out@) =~= before.push(rest));
                assert(before + seq![rest] =~= before.push(rest));
                assert(v@.skip(end as int) =~= Seq::<char>::empty());
                assert(lines_of(v@.skip(end as int)) =~= Seq::<Seq<char>>::empty());
                assert(texts(out@) + lines_of(v@.skip(end as int)) =~= texts(out@));
            }
            from = end;
        } else {
            let stop: usize = if end > from && v[end - 1] == '\r' {
                end - 1
            } else {
                end
            };
            let line = string_range(&v, from, stop);
            out.push(line);
            proof {
                let body = rest.take(end - from);
                if end > from {
                    assert(body.last() == v@[end - 1]);
                }
                assert(line@ =~= without_return(body));
                assert(texts(out@) =~= before.push(line@));
                assert(rest.skip(end - from + 1) =~= v@.skip(end + 1));
                let tail = lines_of(v@.skip(end + 1));
                assert(before + (seq![line@] + tail) =~= before.push(line@) + tail);
            }
            from = end + 1;
        }
    }
    proof {
        assert(v@.skip(from as int) =~= Seq::<char>::empty());
        assert(lines_of(v@.skip(from as int)) =~= Seq::<Seq<char>>::empty());
        assert(texts(out@) + lines_of(v@.skip(from as int)) =~= texts(out@));
    }
    out
}

/// White space as Unicode defines it.
pub open spec fn is_white(c: char) -> bool {
    let u = c as int;
    ||| 0x9 <= u <= 0xD
    ||| u == 0x20
    ||| u == 0x85
    ||| u == 0xA0
    ||| u == 0x1680
    ||| 0x2000 <= u <= 0x200A
    ||| u == 0x2028
    ||| u == 0x2029
    ||| u == 0x202F
    ||| u == 0x205F
    ||| u == 0x3000
}

fn white(c: char) -> (r: bool)
    ensures
        r == is_white(c),
{
    let u: u32 = c as u32;
    (0x9 <= u && u <= 0xD) || u == 0x20 || u == 0x85 || u == 0xA0 || u == 0x1680 || (0x2000 <= u
        && u <= 0x200A) || u == 0x2028 || u == 0x2029 || u == 0x202F || u == 0x205F || u == 0x3000
}

/// A text without the white space at its start.
pub open spec fn trim_start(s: Seq<char>) -> Seq<char>
    decreases s.len(),
{
    if s.len() > 0 && is_white(s[0]) {
        trim_start(s.skip(1))
    } else {
        s
    }
}

/// A text without the white space at its end.
pub open spec fn trim_end(s: Seq<char>) -> Seq<char>
    decreases s.len(),
{
    if s.len() > 0 && is_white(s.last()) {
        trim_end(s.drop_last())
    } else {
        s
    }
}

/// A text without the white space around it.
pub open spec fn trimmed(s: Seq<char>) -> Seq<char> {
    trim_end(trim_start(s))
}

/// A text without the white space around it.
pub fn trim(s: &str) -> (r: String)
    ensures
        r@ == trimmed(s@),
{
    let v = chars_of(s);
    let mut from: usize = 0;
    assert(v@.skip(0) =~= v@);
    while from < v.len() && white(v[from])
        invariant
            from <= v.len(),
            v@ == s@,
            trim_start(s@) == trim_start(v@.skip(from as int)),
        decreases v.len() - from,
    {
        assert(v@.skip(from as int).skip(1) =~= v@.skip(from + 1));
        from = from + 1;
    }
    assert(trim_start(s@) =~= v@.skip(from as int));
    let mut to: usize = v.len();
    assert(v@.subrange(from as int, to as int) =~= v@.skip(from as int));
    while to > from && white(v[to - 1])
        invariant
            from <= to <= v.len(),
            trim_end(v@.skip(from as int)) == trim_end(v@.subrange(from as int, to as int)),
        decreases to,
    {
        assert(v@.subrange(from as int, to as int).drop_last() =~= v@.subrange(
            from as int,
            to - 1,
        ));
        to = to - 1;
    }
    string_range(&v, from, to)
}

/// What follows a prefix, where the text starts with it.
pub open spec fn after_prefix(s: Seq<char>, prefix: Seq<char>) -> Option<Seq<char>> {
    if occurs_at(s, prefix, 0) {
        Some(s.skip(prefix.len() as int))
    } else {
        None
    }
}

/// What follows a prefix, where the text starts with it.
pub fn strip_prefix(s: &str, prefix: &str) -> (r: Option<String>)
    ensures
        match r {
            Some(t) => after_prefix(s@, prefix@) == Some(t@),
            None => after_prefix(s@, prefix@) is None,
        },
{
    if crate::text::starts_with_text(s, prefix) {
        let v = chars_of(s);
        let n: usize = prefix.unicode_len();
        let rest = string_range(&v, n, v.len());
        assert(rest@ =~= s@.skip(prefix@.len() as int));
        Some(rest)
    } else {
        None
    }
}

/// Parts with a separator between each two.
pub open spec fn joined(parts: Seq<Seq<char>>, c: char) -> Seq<char>
    decreases parts.len(),
{
    if parts.len() == 0 {
        Seq::empty()
    } else if parts.len() == 1 {
        parts[0]
    } else {
        parts[0].push(c) + joined(parts.skip(1), c)
    }
}

/// One text of several, with a separator between each two.
pub fn join(parts: &Vec<String>, c: char) -> (r: String)
    ensures
        r@ == joined(texts(parts@), c),
{
    let ghost all = texts(parts@);
    let mut out = String::new();
    let mut i: usize = 0;
    assert(all.skip(0) =~= all);
    while i < parts.len()
        invariant
            i <= parts.len(),
            all == texts(parts@),
            i == 0 ==> out@.len() == 0,
            i < parts.len() ==> out@ + joined(all.skip(i as int), c) == joined(all, c),
            i == parts.len() ==> out@ == joined(all, c),
        decreases parts.len() - i,
    {
        let ghost rest = all.skip(i as int);
        let ghost before = out@;
        assert(rest[0] == parts@[i as int]@);
        assert(rest.skip(1) =~= all.skip(i + 1));
        out = out.concat(parts[i].as_str());
        if i + 1 < parts.len() {
            out.push(c);
            assert(before + (rest[0].push(c) + joined(rest.skip(1), c)) =~= out@ + joined(
                all.skip(i + 1),
                c,
            ));
        }
        i = i + 1;
    }
    out
}

/// Splitting what was joined gives the parts back, as long as no part holds the separator.
pub proof fn law_split_of_join(parts: Seq<Seq<char>>, c: char)
    requires
        parts.len() > 0,
        forall|i: int| 0 <= i < parts.len() ==> !(#[trigger] parts[i]).contains(c),
    ensures
        split_text(joined(parts, c), c) == parts,
    decreases parts.len(),
{
    let s = joined(parts, c);
    let first = parts[0];
    assert(!first.contains(c));
    if parts.len() == 1 {
        assert forall|i: int| 0 <= i < s.len() implies s[i] != c by {
            if s[i] == c {
                assert(first.contains(c));
            }
        }
        lemma_index_is(s, c, s.len() as int);
        assert(parts =~= seq![s]);
    } else {
        let rest = parts.skip(1);
        assert forall|i: int| 0 <= i < rest.len() implies !(#[trigger] rest[i]).contains(c) by {
            assert(rest[i] == parts[i + 1]);
        }
        law_split_of_join(rest, c);
        let k = first.len() as int;
        assert forall|i: int| 0 <= i < k implies s[i] != c by {
            assert(s[i] == first[i]);
            if s[i] == c {
                assert(first.contains(c));
            }
        }
        assert(s[k] == c);
        lemma_index_is(s, c, k);
        assert(s.take(k) =~= first);
        assert(s.skip(k + 1) =~= joined(rest, c));
        assert(seq![first] + rest =~= parts);
    }
}

/// The header of a table and its rows.
pub struct Table {
    pub headers: Vec<String>,
    pub rows: Vec<String>,
}

/// What a `Table` holds.
pub ghost struct TableView {
    pub headers: Seq<Seq<char>>,
    pub rows: Seq<Seq<char>>,
}

impl View for Table {
    type V = TableView;

    open spec fn view(&self) -> TableView {
        TableView { headers: texts(self.headers@), rows: texts(self.rows@) }
    }
}

/// Lines without the blank ones at their end.
pub open spec fn without_blank_end(rows: Seq<Seq<char>>) -> Seq<Seq<char>>
    decreases rows.len(),
{
    if rows.len() > 0 && trimmed(rows.last()).len() == 0 {
        without_blank_end(rows.drop_last())
    } else {
        rows
    }
}

pub open spec fn table_of(content: Seq<char>) -> Option<TableView> {
    let all = lines_of(content);
    if all.len() == 0 {
        None
    } else {
        Some(
            TableView {
                headers: split_text(all[0], ',').map_values(|h: Seq<char>| trimmed(h)),
                rows: without_blank_end(all.skip(1)),
            },
        )
    }
}

/// Reads a table: column names from the first line, rows from the others. There is none in an
/// empty text.
pub fn read_csv(content: &str) -> (r: Option<Table>)
    ensures
        match r {
            Some(t) => table_of(content@) == Some(t@),
            None => table_of(content@) is None,
        },
{
    let mut all = lines(content);
    if all.len() == 0 {
        return None;
    }
    let ghost texts_all = texts(all@);
    let header_line = all.remove(0);
    let raw = split(header_line.as_str(), ',');
    let ghost names = split_text(texts_all[0], ',').map_values(|h: Seq<char>| trimmed(h));
    let mut headers: Vec<String> = Vec::new();
    let mut i: usize = 0;
    assert(texts(headers@) =~= names.take(0));
    while i < raw.len()
        invariant
            i <= raw.len(),
            texts(raw@) == split_text(texts_all[0], ','),
            names == split_text(texts_all[0], ',').map_values(|h: Seq<char>| trimmed(h)),
            texts(headers@) == names.take(i as int),
        decreases raw.len() - i,
    {
        let name = trim(raw[i].as_str());
        let ghost before = texts(headers@);
        headers.push(name);
        proof {
            assert(texts(raw@)[i as int] == raw@[i as int]@);
            assert(names[i as int] == name@);
            assert(texts(headers@) =~= before.push(name@));
            assert(names.take(i + 1) =~= names.take(i as int).push(names[i as int]));
        }
        i = i + 1;
    }
    assert(names.take(i as int) =~= names) by {
        assert(texts(raw@).len() == names.len());
    }
    assert(texts(all@) =~= texts_all.skip(1));
    while all.len() > 0 && trim(all[all.len() - 1].as_str()).as_str().is_empty()
        invariant
            without_blank_end(texts_all.skip(1)) == without_blank_end(texts(all@)),
        decreases all.len(),
    {
        let ghost before = texts(all@);
        assert(before.last() == all@[all@.len() - 1]@);
        let _ = all.pop();
        assert(texts(all@) =~= before.drop_last());
    }
    proof {
        if all@.len() > 0 {
            assert(texts(all@).last() == all@[all@.len() - 1]@);
        }
    }
    Some(Table { headers, rows: all })
}

/// The place of the first column of that name.
pub open spec fn column_of(headers: Seq<Seq<char>>, name: Seq<char>) -> Option<int>
    decreases headers.len(),
{
    if headers.len() == 0 {
        None
    } else if headers[0] == name {
        Some(0)
    } else {
        match column_of(headers.skip(1), name) {
            Some(i) => Some(i + 1),
            None => None,
        }
    }
}

/// The place of the first column of that name.
pub fn col_index(headers: &Vec<String>, name: &str) -> (r: Option<usize>)
    ensures
        match r {
            Some(i) => column_of(texts(headers@), name@) == Some(i as int),
            None => column_of(texts(headers@), name@) is None,
        },
{
    let ghost all = texts(headers@);
    let mut i: usize = 0;
    assert(all.skip(0) =~= all);
    while i < headers.len()
        invariant
            i <= headers.len(),
            all == texts(headers@),
            column_of(all, name@) == (match column_of(all.skip(i as int), name@) {
                Some(k) => Some(k + i),
                None => None,
            }),
        decreases headers.len() - i,
    {
        assert(all.skip(i as int)[0] == headers@[i as int]@);
        assert(all.skip(i as int).skip(1) =~= all.skip(i + 1));
        if str_eq(headers[i].as_str(), name) {
            return Some(i);
        }
        i = i + 1;
    }
    None
}

/// The text of a column in a row, where the table has that column and the row reaches it.
pub open spec fn cell(columns: Seq<Seq<char>>, at: Option<int>) -> Option<Seq<char>> {
    match at {
        Some(i) => if 0 <= i < columns.len() {
            Some(columns[i])
        } else {
            None
        },
        None => None,
    }
}

pub open spec fn opt_int(i: Option<usize>) -> Option<int> {
    match i {
        Some(i) => Some(i as int),
        None => None,
    }
}

/// The text of a column in a row, where the table has that column and the row reaches it.
pub fn cell_at(columns: &Vec<String>, at: Option<usize>) -> (r: Option<String>)
    ensures
        match r {
            Some(s) => cell(texts(columns@), opt_int(at)) == Some(s@),
            None => cell(texts(columns@), opt_int(at)) is None,
        },
{
    match at {
        Some(i) => if i < columns.len() {
            assert(texts(columns@)[i as int] == columns@[i as int]@);
            Some(columns[i].clone())
        } else {
            None
        },
        None => None,
    }
}

/// A column of a name is the first that has it.
pub proof fn law_column_of(headers: Seq<Seq<char>>, name: Seq<char>)
    ensures
        column_of(headers, name) is None <==> forall|i: int|
            0 <= i < headers.len() ==> #[trigger] headers[i] != name,
        column_of(headers, name) matches Some(i) ==> 0 <= i < headers.len() && headers[i] == name
            && forall|j: int| 0 <= j < i ==> #[trigger] headers[j] != name,
    decreases headers.len(),
{
    if headers.len() > 0 {
        let t = headers.skip(1);
        law_column_of(t, name);
        assert forall|i: int| 0 < i < headers.len() implies #[trigger] headers[i] == t[i - 1] by {}
        if headers[0] != name {
            if column_of(t, name) is Some {
                let k = column_of(t, name)->0;
                assert(headers[k + 1] == t[k]);
            }
        }
    }
}

/// The parts of a text hold no separator, and joined they are the text.
pub proof fn law_join_of_split(s: Seq<char>, c: char)
    ensures
        split_text(s, c).len() > 0,
        joined(split_text(s, c), c) == s,
        forall|i: int| 0 <= i < split_text(s, c).len() ==> !(#[trigger] split_text(s, c)[i]).contains(c),
    decreases s.len(),
{
    lemma_index_of_char(s, c);
    let k = index_of_char(s, c);
    let parts = split_text(s, c);
    if k >= s.len() {
        assert(parts =~= seq![s]);
        assert(!parts[0].contains(c));
    } else {
        let rest = s.skip(k + 1);
        law_join_of_split(rest, c);
        let more = split_text(rest, c);
        assert(parts =~= seq![s.take(k)] + more);
        assert(parts.skip(1) =~= more);
        assert(joined(parts, c) == parts[0].push(c) + joined(more, c));
        assert(s.take(k).push(c) + rest =~= s);
        assert forall|i: int| 0 <= i < parts.len() implies !(#[trigger] parts[i]).contains(c) by {
            if i == 0 {
                assert(parts[0] == s.take(k));
            } else {
                assert(parts[i] == more[i - 1]);
            }
        }
    }
}

/// A line ends at its line feed, without a carriage return before that; what follows are the
/// other lines. A text without a line feed is one line, and an empty text has none.
pub proof fn law_lines(a: Seq<char>, b: Seq<char>)
    requires
        !a.contains('\n'),
    ensures
        lines_of(a.push('\n') + b) == seq![without_return(a)] + lines_of(b),
        a.len() > 0 ==> lines_of(a) == seq![a],
        lines_of(Seq::empty()) == Seq::<Seq<char>>::empty(),
        !(a.len() > 0 && a.last() == '\r') ==> without_return(a) == a,
        without_return(a.push('\r')) == a,
{
    let s = a.push('\n') + b;
    let k = a.len() as int;
    assert forall|i: int| 0 <= i < k implies s[i] != '\n' by {
        assert(a.contains(a[i]));
    }
    assert(s[k] == '\n');
    lemma_index_is(s, '\n', k);
    assert(s.take(k) =~= a);
    assert(s.skip(k + 1) =~= b);
    assert forall|i: int| 0 <= i < k implies a[i] != '\n' by {
        assert(a.contains(a[i]));
    }
    lemma_index_is(a, '\n', k);
    assert(a.push('\r').drop_last() =~= a);
}

/// A prefix is cut off where the text starts with it, and what is left is the rest.
pub proof fn law_after_prefix(s: Seq<char>, prefix: Seq<char>)
    ensures
        after_prefix(s, prefix) matches Some(t) ==> s == prefix + t,
        after_prefix(prefix + s, prefix) == Some(s),
{
    if after_prefix(s, prefix) is Some {
        assert(s.subrange(0, prefix.len() as int) == prefix);
        assert(s =~= prefix + s.skip(prefix.len() as int));
    }
    let x = prefix + s;
    assert(x.subrange(0, prefix.len() as int) =~= prefix);
    assert(x.skip(prefix.len() as int) =~= s);
}

proof fn lemma_trim_start(s: Seq<char>)
    ensures
        exists|i: int|
            0 <= i <= s.len() && #[trigger] s.skip(i) == trim_start(s) && (forall|k: int|
                0 <= k < i ==> is_white(#[trigger] s[k])),
        trim_start(s).len() > 0 ==> !is_white(trim_start(s)[0]),
    decreases s.len(),
{
    if s.len() > 0 && is_white(s[0]) {
        let t = s.skip(1);
        lemma_trim_start(t);
        let i = choose|i: int|
            0 <= i <= t.len() && #[trigger] t.skip(i) == trim_start(t) && (forall|k: int|
                0 <= k < i ==> is_white(#[trigger] t[k]));
        assert(s.skip(i + 1) =~= t.skip(i));
        assert forall|k: int| 0 <= k < i + 1 implies is_white(#[trigger] s[k]) by {
            if k > 0 {
                assert(t[k - 1] == s[k]);
            }
        }
    } else {
        assert(s.skip(0) =~= s);
    }
}

proof fn lemma_trim_end(s: Seq<char>)
    ensures
        exists|i: int|
            0 <= i <= s.len() && #[trigger] s.take(i) == trim_end(s) && (forall|k: int|
                i <= k < s.len() ==> is_white(#[trigger] s[k])),
        trim_end(s).len() > 0 ==> !is_white(trim_end(s).last()),
        s.len() > 0 && !is_white(s[0]) ==> trim_end(s).len() > 0 && trim_end(s)[0] == s[0],
    decreases s.len(),
{
    if s.len() > 0 && is_white(s.last()) {
        let t = s.drop_last();
        lemma_trim_end(t);
        let i = choose|i: int|
            0 <= i <= t.len() && #[trigger] t.take(i) == trim_end(t) && (forall|k: int|
                i <= k < t.len() ==> is_white(#[trigger] t[k]));
        assert(s.take(i) =~= t.take(i));
        assert forall|k: int| i <= k < s.len() implies is_white(#[trigger] s[k]) by {
            if k < t.len() {
                assert(t[k] == s[k]);
            }
        }
    } else {
        assert(s.take(s.len() as int) =~= s);
    }
}

/// Trimming takes white space off both ends and nothing else: what is left starts and ends with
/// none.
pub proof fn law_trimmed(s: Seq<char>)
    ensures
        exists|i: int, j: int|
            0 <= i <= j <= s.len() && #[trigger] s.subrange(i, j) == trimmed(s) && (forall|k: int|
                0 <= k < i || j <= k < s.len() ==> is_white(#[trigger] s[k])),
        trimmed(s).len() > 0 ==> !is_white(trimmed(s)[0]) && !is_white(trimmed(s).last()),
{
    lemma_trim_start(s);
    let i = choose|i: int|
        0 <= i <= s.len() && #[trigger] s.skip(i) == trim_start(s) && (forall|k: int|
            0 <= k < i ==> is_white(#[trigger] s[k]));
    let t = trim_start(s);
    lemma_trim_end(t);
    let j = choose|j: int|
        0 <= j <= t.len() && #[trigger] t.take(j) == trim_end(t) && (forall|k: int|
            j <= k < t.len() ==> is_white(#[trigger] t[k]));
    assert(s.subrange(i, i + j) =~= t.take(j));
    assert forall|k: int| 0 <= k < i || i + j <= k < s.len() implies is_white(#[trigger] s[k]) by {
        if k >= i {
            assert(t[k - i] == s[k]);
        }
    }
}

/// Blanks, tabs and the ends of lines are white space; letters, digits and signs are not.
pub proof fn law_white(c: char)
    ensures
        is_white(' ') && is_white('\t') && is_white('\n') && is_white('\r'),
        0x21 <= c as int && c as int <= 0x7E ==> !is_white(c),
        9 <= c as int && c as int <= 13 ==> is_white(c),
        0x2000 <= c as int && c as int <= 0x200A ==> is_white(c),
        is_white(c) && c as int >= 0x7F ==> c as int == 0x85 || c as int == 0xA0 || c as int == 0x1680
            || (0x2000 <= c as int && c as int <= 0x200A) || c as int == 0x2028 || c as int == 0x2029
            || c as int == 0x202F || c as int == 0x205F || c as int == 0x3000,
        c as int == 0x85 || c as int == 0xA0 || c as int == 0x1680 || c as int == 0x2028 || c as int
            == 0x2029 || c as int == 0x202F || c as int == 0x205F || c as int == 0x3000 ==> is_white(
            c,
        ),
        c as int <= 8 || (14 <= c as int && c as int <= 31) ==> !is_white(c),
{
}

/// A table has the cells of its first line as column names, without the white space around
/// them, and the other lines as rows but for blank ones at the end; no blank row ends it.
pub proof fn law_table_of(content: Seq<char>)
    ensures
        table_of(content) is None <==> lines_of(content).len() == 0,
        table_of(content) matches Some(t) ==> {
            let all = lines_of(content);
            &&& t.headers.len() == split_text(all[0], ',').len()
            &&& forall|i: int|
                0 <= i < t.headers.len() ==> #[trigger] t.headers[i] == trimmed(
                    split_text(all[0], ',')[i],
                )
            &&& t.rows.len() < all.len()
            &&& forall|i: int| 0 <= i < t.rows.len() ==> #[trigger] t.rows[i] == all[i + 1]
            &&& t.rows.len() > 0 ==> trimmed(t.rows.last()).len() > 0
            &&& forall|i: int|
                t.rows.len() < i < all.len() ==> trimmed(#[trigger] all[i]).len() == 0
        },
{
    let all = lines_of(content);
    if all.len() > 0 {
        lemma_without_blank_end(all.skip(1));
        let rows = without_blank_end(all.skip(1));
        assert forall|i: int| rows.len() < i < all.len() implies trimmed(#[trigger] all[i]).len()
            == 0 by {
            assert(all.skip(1)[i - 1] == all[i]);
        }
    }
}

proof fn lemma_without_blank_end(rows: Seq<Seq<char>>)
    ensures
        without_blank_end(rows).len() <= rows.len(),
        forall|i: int|
            0 <= i < without_blank_end(rows).len() ==> #[trigger] without_blank_end(rows)[i]
                == rows[i],
        without_blank_end(rows).len() > 0 ==> trimmed(without_blank_end(rows).last()).len() > 0,
        forall|i: int|
            without_blank_end(rows).len() <= i < rows.len() ==> trimmed(#[trigger] rows[i]).len()
                == 0,
    decreases rows.len(),
{
    if rows.len() > 0 && trimmed(rows.last()).len() == 0 {
        lemma_without_blank_end(rows.drop_last());
        assert forall|i: int|
            without_blank_end(rows).len() <= i < rows.len() implies trimmed(
            #[trigger] rows[i],
        ).len() == 0 by {
            if i < rows.len() - 1 {
                assert(rows.drop_last()[i] == rows[i]);
            }
        }
    }
}

} // verus!
