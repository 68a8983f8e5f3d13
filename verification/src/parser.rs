//! Record parsing: raw multi-line tool output is split into lines, blank
//! lines are dropped, each retained line is split on a separator character,
//! every field is trimmed, and rows with too few fields are dropped.

use vstd::prelude::*;

use crate::text::{is_blank, is_space_char, trim, trim_str};

verus! {

/// The pieces of a text cut at every occurrence of a separator character.
/// A text with no separator yields one piece; each separator opens a new,
/// possibly empty, piece.
pub open spec fn split_on(s: Seq<char>, sep: char) -> Seq<Seq<char>>
    decreases s.len(),
{
    if s.len() == 0 {
        seq![Seq::<char>::empty()]
    } else if s.last() == sep {
        split_on(s.drop_last(), sep).push(Seq::<char>::empty())
    } else {
        let p = split_on(s.drop_last(), sep);
        p.update(p.len() - 1, p.last().push(s.last()))
    }
}

/// Splitting always yields at least one piece.
pub proof fn lemma_split_on_len(s: Seq<char>, sep: char)
    ensures
        split_on(s, sep).len() >= 1,
    decreases s.len(),
{
    if s.len() > 0 {
        lemma_split_on_len(s.drop_last(), sep);
    }
}

/// Every piece of a sequence of texts, trimmed.
pub open spec fn trim_all(v: Seq<Seq<char>>) -> Seq<Seq<char>> {
    v.map_values(|f: Seq<char>| trim(f))
}

/// The fields of one line: the line is split on the separator and each
/// field is trimmed.
pub open spec fn line_fields(l: Seq<char>, sep: char) -> Seq<Seq<char>> {
    trim_all(split_on(l, sep))
}

/// The field rows kept from a sequence of lines: blank lines and rows with
/// fewer than `min` fields are dropped; input order is preserved.
pub open spec fn rows_of_lines(ls: Seq<Seq<char>>, sep: char, min: nat) -> Seq<Seq<Seq<char>>>
    decreases ls.len(),
{
    if ls.len() == 0 {
        Seq::empty()
    } else {
        let rest = rows_of_lines(ls.drop_last(), sep, min);
        let l = ls.last();
        if !is_blank(l) && line_fields(l, sep).len() >= min {
            rest.push(line_fields(l, sep))
        } else {
            rest
        }
    }
}

/// The field rows parsed from raw multi-line text.
pub open spec fn rows_of(text: Seq<char>, sep: char, min: nat) -> Seq<Seq<Seq<char>>> {
    rows_of_lines(split_on(text, '\n'), sep, min)
}

/// The character sequences held by a vector of strings.
pub open spec fn fields_view(v: Seq<String>) -> Seq<Seq<char>> {
    v.map_values(|f: String| f@)
}

/// The character sequences held by a vector of field rows.
pub open spec fn rows_view(v: Seq<Vec<String>>) -> Seq<Seq<Seq<char>>> {
    v.map_values(|row: Vec<String>| fields_view(row@))
}

proof fn lemma_trim_all_push(v: Seq<Seq<char>>, x: Seq<char>)
    ensures
        trim_all(v.push(x)) == trim_all(v).push(trim(x)),
{
    assert(trim_all(v.push(x)) =~= trim_all(v).push(trim(x)));
}

proof fn lemma_fields_view_push(v: Seq<String>, x: String)
    ensures
        fields_view(v.push(x)) == fields_view(v).push(x@),
{
    assert(fields_view(v.push(x)) =~= fields_view(v).push(x@));
}

proof fn lemma_rows_view_push(v: Seq<Vec<String>>, x: Vec<String>)
    ensures
        rows_view(v.push(x)) == rows_view(v).push(fields_view(x@)),
{
    assert(rows_view(v.push(x)) =~= rows_view(v).push(fields_view(x@)));
}

/// Splits a text at every occurrence of the separator, keeping the raw,
/// untrimmed pieces in order.
pub fn split_raw(s: &str, sep: char) -> (r: Vec<String>)
    ensures
        fields_view(r@) == split_on(s@, sep),
{
    let n = s.unicode_len();
    let mut pieces: Vec<String> = Vec::new();
    let ghost mut raws: Seq<Seq<char>> = Seq::empty();
    let mut start: usize = 0;
    let mut i: usize = 0;
    proof {
        assert(s@.subrange(0, 0) =~= Seq::<char>::empty());
        assert(split_on(s@.subrange(0, 0), sep) =~= raws.push(s@.subrange(0, 0)));
    }
    while i < n
        invariant
            0 <= start <= i <= n,
            n == s@.len(),
            split_on(s@.subrange(0, i as int), sep) == raws.push(
                s@.subrange(start as int, i as int),
            ),
            fields_view(pieces@) == raws,
        decreases n - i,
    {
        let ghost prefix = s@.subrange(0, i as int);
        let ghost pending = s@.subrange(start as int, i as int);
        let c = s.get_char(i);
        proof {
            assert(s@.subrange(0, i + 1) =~= prefix.push(c));
            assert(prefix.push(c).drop_last() =~= prefix);
        }
        if c == sep {
            let piece = s.substring_char(start, i);
            let owned = piece.to_owned();
            proof {
                lemma_fields_view_push(pieces@, owned);
            }
            pieces.push(owned);
            proof {
                raws = raws.push(pending);
                assert(split_on(prefix.push(c), sep) == split_on(prefix, sep).push(
                    Seq::<char>::empty(),
                ));
                assert(s@.subrange(i + 1, i + 1) =~= Seq::<char>::empty());
            }
            start = i + 1;
        } else {
            proof {
                let p = split_on(prefix, sep);
                lemma_split_on_len(prefix, sep);
                assert(p.last() == pending);
                assert(split_on(prefix.push(c), sep) == p.update(p.len() - 1, pending.push(c)));
                assert(p.update(p.len() - 1, pending.push(c)) =~= raws.push(pending.push(c)));
                assert(pending.push(c) =~= s@.subrange(start as int, i + 1));
            }
        }
        i = i + 1;
    }
    let piece = s.substring_char(start, n);
    let owned = piece.to_owned();
    proof {
        lemma_fields_view_push(pieces@, owned);
        assert(s@.subrange(0, n as int) =~= s@);
    }
    pieces.push(owned);
    pieces
}

/// Splits one line on the separator and trims every field.
pub fn parse_line(line: &str, sep: char) -> (r: Vec<String>)
    ensures
        fields_view(r@) == line_fields(line@, sep),
{
    let raw = split_raw(line, sep);
    let mut fields: Vec<String> = Vec::new();
    let mut i: usize = 0;
    proof {
        assert(fields_view(fields@) =~= trim_all(fields_view(raw@).subrange(0, 0)));
    }
    while i < raw.len()
        invariant
            0 <= i <= raw.len(),
            fields_view(raw@) == split_on(line@, sep),
            fields_view(fields@) == trim_all(fields_view(raw@).subrange(0, i as int)),
        decreases raw.len() - i,
    {
        let t = trim_str(raw[i].as_str());
        proof {
            lemma_fields_view_push(fields@, t);
            assert(fields_view(raw@).subrange(0, i + 1) =~= fields_view(raw@).subrange(
                0,
                i as int,
            ).push(raw@[i as int]@));
            lemma_trim_all_push(fields_view(raw@).subrange(0, i as int), raw@[i as int]@);
        }
        fields.push(t);
        i = i + 1;
    }
    proof {
        assert(fields_view(raw@).subrange(0, raw@.len() as int) =~= fields_view(raw@));
    }
    fields
}

/// Parses raw multi-line text into field rows: lines are split on a newline,
/// blank lines are dropped, each retained line is split on the separator and
/// trimmed, and rows with fewer than `min_fields` fields are dropped.
pub fn parse_records(text: &str, sep: char, min_fields: usize) -> (r: Vec<Vec<String>>)
    ensures
        rows_view(r@) == rows_of(text@, sep, min_fields as nat),
{
    let lines = split_raw(text, '\n');
    let ghost ls = fields_view(lines@);
    let mut rows: Vec<Vec<String>> = Vec::new();
    let mut k: usize = 0;
    proof {
        assert(ls.subrange(0, 0) =~= Seq::<Seq<char>>::empty());
    }
    while k < lines.len()
        invariant
            0 <= k <= lines.len(),
            ls == fields_view(lines@),
            ls == split_on(text@, '\n'),
            rows_view(rows@) == rows_of_lines(ls.subrange(0, k as int), sep, min_fields as nat),
        decreases lines.len() - k,
    {
        let line = lines[k].as_str();
        proof {
            assert(line@ == ls[k as int]);
            assert(ls.subrange(0, k + 1) =~= ls.subrange(0, k as int).push(ls[k as int]));
            assert(ls.subrange(0, k + 1).drop_last() =~= ls.subrange(0, k as int));
        }
        let t = trim_str(line);
        if !t.as_str().is_empty() {
            let fields = parse_line(line, sep);
            if fields.len() >= min_fields {
                proof {
                    lemma_rows_view_push(rows@, fields);
                }
                rows.push(fields);
            }
        }
        k = k + 1;
    }
    proof {
        assert(ls.subrange(0, ls.len() as int) =~= ls);
    }
    rows
}

/// The lines kept by the parser: those that are not blank, in input order.
pub open spec fn non_blank(ls: Seq<Seq<char>>) -> Seq<Seq<char>>
    decreases ls.len(),
{
    if ls.len() == 0 {
        Seq::empty()
    } else {
        let rest = non_blank(ls.drop_last());
        if is_blank(ls.last()) {
            rest
        } else {
            rest.push(ls.last())
        }
    }
}

/// Blank lines never contribute to the parsed rows: parsing a sequence of
/// lines yields exactly the rows parsed from its non-blank lines alone.
pub proof fn lemma_blank_lines_dropped(ls: Seq<Seq<char>>, sep: char, min: nat)
    ensures
        rows_of_lines(ls, sep, min) == rows_of_lines(non_blank(ls), sep, min),
    decreases ls.len(),
{
    if ls.len() > 0 {
        lemma_blank_lines_dropped(ls.drop_last(), sep, min);
        let l = ls.last();
        if !is_blank(l) {
            assert(non_blank(ls) == non_blank(ls.drop_last()).push(l));
            assert(non_blank(ls.drop_last()).push(l).drop_last() =~= non_blank(ls.drop_last()));
        }
    }
}

/// No kept line is blank.
pub proof fn lemma_non_blank_lines(ls: Seq<Seq<char>>)
    ensures
        forall|i: int| 0 <= i < non_blank(ls).len() ==> !is_blank(#[trigger] non_blank(ls)[i]),
    decreases ls.len(),
{
    if ls.len() > 0 {
        lemma_non_blank_lines(ls.drop_last());
        let rest = non_blank(ls.drop_last());
        assert forall|i: int| 0 <= i < non_blank(ls).len() implies !is_blank(
            #[trigger] non_blank(ls)[i],
        ) by {
            if i < rest.len() {
                assert(non_blank(ls)[i] == rest[i]);
            }
        }
    }
}

/// Every parsed row holds at least the minimum number of fields; a short row
/// is dropped, never an error and never part of the output.
pub proof fn lemma_rows_have_min_fields(ls: Seq<Seq<char>>, sep: char, min: nat)
    ensures
        forall|i: int|
            0 <= i < rows_of_lines(ls, sep, min).len() ==> (#[trigger] rows_of_lines(
                ls,
                sep,
                min,
            )[i]).len() >= min,
    decreases ls.len(),
{
    if ls.len() > 0 {
        lemma_rows_have_min_fields(ls.drop_last(), sep, min);
        let rest = rows_of_lines(ls.drop_last(), sep, min);
        assert forall|i: int|
            0 <= i < rows_of_lines(ls, sep, min).len() implies (#[trigger] rows_of_lines(
            ls,
            sep,
            min,
        )[i]).len() >= min by {
            if i < rest.len() {
                assert(rows_of_lines(ls, sep, min)[i] == rest[i]);
            }
        }
    }
}

/// Field trimming is idempotent: the fields of a parsed line, trimmed again,
/// are the same fields.
pub proof fn lemma_line_fields_trimmed(l: Seq<char>, sep: char)
    ensures
        trim_all(line_fields(l, sep)) == line_fields(l, sep),
{
    let v = split_on(l, sep);
    assert forall|i: int| 0 <= i < trim_all(trim_all(v)).len() implies trim_all(trim_all(v))[i]
        == trim_all(v)[i] by {
        crate::text::lemma_trim_idempotent(v[i]);
    }
    assert(trim_all(trim_all(v)) =~= trim_all(v));
}

} // verus!
