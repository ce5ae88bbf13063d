use crate::region::field_views;
use vstd::prelude::*;
use vstd::string::*;

verus! {

/// The tab-separated fields of a line: the text between consecutive tabs,
/// with one more field than the line has tabs.
pub open spec fn split_tabs(s: Seq<char>) -> Seq<Seq<char>>
    decreases s.len(),
{
    if s.len() == 0 {
        seq![Seq::empty()]
    } else {
        let earlier = split_tabs(s.drop_last());
        if s.last() == '\t' {
            earlier.push(Seq::empty())
        } else {
            earlier.update(earlier.len() - 1, earlier.last().push(s.last()))
        }
    }
}

/// Splits a line into its tab-separated fields.
pub fn split_fields(line: &str) -> (fields: Vec<String>)
    ensures
        field_views(fields@) == split_tabs(line@),
{
    let n = line.unicode_len();
    let mut fields: Vec<String> = Vec::new();
    let mut field_start: usize = 0;
    let mut i: usize = 0;
    assert(line@.subrange(0, 0) =~= Seq::<char>::empty());
    assert(field_views(fields@) + seq![line@.subrange(0, 0)] =~= split_tabs(line@.subrange(0, 0)));
    while i < n
        invariant
            n == line@.len(),
            field_start <= i <= n,
            field_views(fields@) + seq![line@.subrange(field_start as int, i as int)]
                == split_tabs(line@.subrange(0, i as int)),
        decreases n - i,
    {
        let c = line.get_char(i);
        let ghost before = field_views(fields@);
        let ghost cur = line@.subrange(field_start as int, i as int);
        let ghost next = line@.subrange(0, i + 1);
        assert(next.drop_last() =~= line@.subrange(0, i as int));
        assert(next.last() == c);
        let ghost earlier = split_tabs(line@.subrange(0, i as int));
        assert(earlier == before + seq![cur]);
        if c == '\t' {
            assert(split_tabs(next) == earlier.push(Seq::empty()));
            let field = line.substring_char(field_start, i).to_owned();
            fields.push(field);
            assert(field_views(fields@) =~= before.push(cur));
            field_start = i + 1;
            assert(line@.subrange(field_start as int, i + 1) =~= Seq::<char>::empty());
            assert(field_views(fields@) + seq![line@.subrange(field_start as int, i + 1)]
                =~= split_tabs(next));
        } else {
            assert(earlier.last() == cur);
            assert(split_tabs(next) == earlier.update(earlier.len() - 1, cur.push(c)));
            assert(line@.subrange(field_start as int, i + 1) =~= cur.push(c));
            assert(field_views(fields@) + seq![line@.subrange(field_start as int, i + 1)]
                =~= split_tabs(next));
        }
        i = i + 1;
    }
    let last = line.substring_char(field_start, n).to_owned();
    let ghost before = field_views(fields@);
    fields.push(last);
    assert(line@.subrange(0, n as int) =~= line@);
    assert(field_views(fields@) =~= before.push(last@));
    fields
}

} // verus!
