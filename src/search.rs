//! Executable search: the search list is split into directories, the program
//! name is joined to each, and the first joined path that exists is the
//! program's location. The caller tests existence on disk, in order, and stops
//! at the first path that exists.
use vstd::prelude::*;
use crate::command::strings_view;
use crate::text::{chars_of, push_char};

verus! {

/// The fields of `s` between `:` characters; an empty `s` is one empty field.
pub open spec fn fields(s: Seq<char>) -> Seq<Seq<char>>
    decreases s.len(),
{
    if s.len() == 0 {
        seq![Seq::empty()]
    } else {
        let rest = fields(s.drop_last());
        if s.last() == ':' {
            rest.push(Seq::empty())
        } else {
            rest.update(rest.len() - 1, rest.last().push(s.last()))
        }
    }
}

pub proof fn lemma_fields_nonempty(s: Seq<char>)
    ensures
        fields(s).len() >= 1,
    decreases s.len(),
{
    if s.len() > 0 {
        lemma_fields_nonempty(s.drop_last());
    }
}

/// `dir` joined with `program` as a path: an absolute program stands alone,
/// an empty directory adds nothing, and one `/` separates the two.
pub open spec fn join_path(dir: Seq<char>, program: Seq<char>) -> Seq<char> {
    if program.len() > 0 && program[0] == '/' {
        program
    } else if dir.len() == 0 {
        program
    } else if dir.last() == '/' {
        dir + program
    } else {
        dir.push('/') + program
    }
}

/// The paths at which `program` is looked for, given the search list.
pub open spec fn search_list(raw_path: Seq<char>, program: Seq<char>) -> Seq<Seq<char>> {
    fields(raw_path).map_values(|d: Seq<char>| join_path(d, program))
}

/// The first candidate whose probe found it; `present[i]` is the probe of
/// `candidates[i]`.
pub open spec fn first_present(candidates: Seq<Seq<char>>, present: Seq<bool>) -> Option<
    Seq<char>,
>
    decreases present.len(),
{
    if present.len() == 0 || candidates.len() == 0 {
        None
    } else if present[0] {
        Some(candidates[0])
    } else {
        first_present(candidates.drop_first(), present.drop_first())
    }
}

pub open spec fn option_view(o: Option<String>) -> Option<Seq<char>> {
    match o {
        Some(s) => Some(s@),
        None => None,
    }
}

/// The directories of a `:`-separated search list, in order.
pub fn search_dirs(raw_path: &str) -> (r: Vec<String>)
    ensures
        strings_view(r@) == fields(raw_path@),
{
    let cs = chars_of(raw_path);
    let ghost s = cs@;
    let mut dirs: Vec<String> = Vec::new();
    let mut cur = String::new();
    let mut i: usize = 0;
    assert(s.take(0) == Seq::<char>::empty());
    assert(strings_view(dirs@).push(cur@) == seq![Seq::<char>::empty()]);
    while i < cs.len()
        invariant
            s == cs@,
            i <= s.len(),
            fields(s.take(i as int)) == strings_view(dirs@).push(cur@),
        decreases s.len() - i,
    {
        let c = cs[i];
        let ghost before = strings_view(dirs@);
        let ghost cur0 = cur@;
        assert(s.take(i + 1).drop_last() == s.take(i as int));
        assert(s.take(i + 1).last() == c);
        if c == ':' {
            dirs.push(cur);
            cur = String::new();
            assert(strings_view(dirs@) == before.push(cur0));
        } else {
            push_char(&mut cur, c);
            assert(before.push(cur0).update(before.len() as int, cur0.push(c)) == before.push(
                cur@,
            ));
        }
        i = i + 1;
    }
    let ghost before = strings_view(dirs@);
    dirs.push(cur);
    assert(s.take(s.len() as int) == s);
    assert(strings_view(dirs@) == before.push(cur@));
    dirs
}

/// `dir` joined with `program` as a path.
pub fn join(dir: &str, program: &str) -> (r: String)
    ensures
        r@ == join_path(dir@, program@),
{
    let n = dir.unicode_len();
    let m = program.unicode_len();
    if m > 0 && program.get_char(0) == '/' {
        String::from_str(program)
    } else if n == 0 {
        String::from_str(program)
    } else if dir.get_char(n - 1) == '/' {
        let mut r = String::from_str(dir);
        r.append(program);
        r
    } else {
        let mut r = String::from_str(dir);
        push_char(&mut r, '/');
        r.append(program);
        r
    }
}

/// Where `program` is looked for, in order, given the search list.
pub fn candidates(raw_path: &str, program: &str) -> (r: Vec<String>)
    ensures
        strings_view(r@) == search_list(raw_path@, program@),
{
    let dirs = search_dirs(raw_path);
    let ghost ds = strings_view(dirs@);
    let mut r: Vec<String> = Vec::new();
    let mut i: usize = 0;
    while i < dirs.len()
        invariant
            ds == strings_view(dirs@),
            ds == fields(raw_path@),
            i <= dirs@.len(),
            strings_view(r@) == ds.subrange(0, i as int).map_values(
                |d: Seq<char>| join_path(d, program@),
            ),
        decreases dirs@.len() - i,
    {
        let p = join(dirs[i].as_str(), program);
        let ghost before = strings_view(r@);
        r.push(p);
        assert(strings_view(r@) == before.push(p@));
        assert(ds.subrange(0, i + 1).map_values(|d: Seq<char>| join_path(d, program@))
            == ds.subrange(0, i as int).map_values(|d: Seq<char>| join_path(d, program@)).push(
            join_path(ds[i as int], program@),
        ));
        i = i + 1;
    }
    assert(ds.subrange(0, dirs@.len() as int) == ds);
    r
}

/// The first of `candidates` that its probe found: `present[i]` tells whether
/// `candidates[i]` exists, for as many as were probed.
pub fn resolve(candidates: &Vec<String>, present: &Vec<bool>) -> (r: Option<String>)
    ensures
        option_view(r) == first_present(strings_view(candidates@), present@),
{
    let ghost cs = strings_view(candidates@);
    let ghost ps = present@;
    let mut i: usize = 0;
    assert(cs.skip(0) == cs);
    assert(ps.skip(0) == ps);
    while i < present.len() && i < candidates.len()
        invariant
            cs == strings_view(candidates@),
            ps == present@,
            i <= ps.len(),
            i <= cs.len(),
            first_present(cs, ps) == first_present(cs.skip(i as int), ps.skip(i as int)),
        decreases ps.len() - i,
    {
        assert(cs.skip(i as int)[0] == cs[i as int]);
        assert(ps.skip(i as int)[0] == ps[i as int]);
        if present[i] {
            return Some(candidates[i].clone());
        }
        assert(cs.skip(i as int).drop_first() == cs.skip(i + 1));
        assert(ps.skip(i as int).drop_first() == ps.skip(i + 1));
        i = i + 1;
    }
    None
}

proof fn lemma_fields_plain_suffix(s: Seq<char>, t: Seq<char>)
    requires
        !t.contains(':'),
    ensures
        fields(s + t) == fields(s).update(fields(s).len() - 1, fields(s).last() + t),
    decreases t.len(),
{
    lemma_fields_nonempty(s);
    let f = fields(s);
    if t.len() == 0 {
        assert(s + t == s);
        assert(f.last() + t == f.last());
        assert(f.update(f.len() - 1, f.last()) == f);
    } else {
        let t0 = t.drop_last();
        assert(!t0.contains(':')) by {
            if t0.contains(':') {
                let k = choose|k: int| 0 <= k < t0.len() && t0[k] == ':';
                assert(t[k] == ':');
            }
        }
        assert(t.last() != ':') by {
            assert(t[t.len() - 1] == t.last());
        }
        lemma_fields_plain_suffix(s, t0);
        assert((s + t).drop_last() == s + t0);
        assert((s + t).last() == t.last());
        assert((f.last() + t0).push(t.last()) == f.last() + t);
    }
}

/// A directory of the search list that does not exist is passed over without
/// error: with the list `d1:d2`, where the probe finds no `program` under `d1`
/// and finds it under `d2`, the search gives its path under `d2`.
pub proof fn law_missing_directory_skipped(d1: Seq<char>, d2: Seq<char>, program: Seq<char>)
    requires
        !d1.contains(':'),
        !d2.contains(':'),
    ensures
        first_present(search_list(d1.push(':') + d2, program), seq![false, true]) == Some(
            join_path(d2, program),
        ),
{
    let e = Seq::<char>::empty();
    lemma_fields_plain_suffix(e, d1);
    assert(e + d1 == d1);
    assert(fields(d1) == seq![d1]);
    assert(d1.push(':').drop_last() == d1);
    assert(fields(d1.push(':')) == seq![d1, e]);
    lemma_fields_plain_suffix(d1.push(':'), d2);
    assert(e + d2 == d2);
    assert(fields(d1.push(':') + d2) == seq![d1, d2]);
    let l = search_list(d1.push(':') + d2, program);
    assert(l == seq![join_path(d1, program), join_path(d2, program)]);
    let p = seq![false, true];
    assert(l.drop_first() == seq![join_path(d2, program)]);
    assert(p.drop_first() == seq![true]);
    assert(first_present(l.drop_first(), p.drop_first()) == Some(join_path(d2, program)));
}

} // verus!
