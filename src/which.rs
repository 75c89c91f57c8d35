//! Finding an executable on the search path, from answers on which files are
//! executable.
use vstd::prelude::*;
use crate::text::{joined, views};

verus! {

/// The path begins at the root.
pub open spec fn is_absolute(p: Seq<char>) -> bool {
    p.len() > 0 && p[0] == '/'
}

/// `name` placed under `dir`: an absolute `name` stands alone, and a
/// separator is put between the two where `dir` does not end with one.
pub open spec fn join_path(dir: Seq<char>, name: Seq<char>) -> Seq<char> {
    if is_absolute(name) || dir.len() == 0 {
        name
    } else if dir.last() == '/' {
        dir + name
    } else {
        dir + "/"@ + name
    }
}

/// The places where `program` is looked for, in order: itself where it is
/// absolute, then under each directory of the search path.
pub open spec fn search_order(program: Seq<char>, dirs: Seq<Seq<char>>) -> Seq<Seq<char>> {
    (if is_absolute(program) {
        seq![program]
    } else {
        Seq::empty()
    }) + dirs.map_values(|d: Seq<char>| join_path(d, program))
}

/// The first candidate whose answer is yes.
pub open spec fn first_found(candidates: Seq<Seq<char>>, hits: Seq<bool>) -> Option<Seq<char>>
    decreases candidates.len(),
{
    if candidates.len() == 0 || hits.len() == 0 {
        None
    } else if hits[0] {
        Some(candidates[0])
    } else {
        first_found(candidates.skip(1), hits.skip(1))
    }
}

fn is_absolute_path(p: &str) -> (r: bool)
    ensures
        r == is_absolute(p@),
{
    p.unicode_len() > 0 && p.get_char(0) == '/'
}

/// `name` placed under `dir`.
pub fn join(dir: &str, name: &str) -> (r: String)
    ensures
        r@ == join_path(dir@, name@),
{
    proof {
        reveal_strlit("/");
    }
    let n = dir.unicode_len();
    if is_absolute_path(name) || n == 0 {
        name.to_owned()
    } else if dir.get_char(n - 1) == '/' {
        joined(dir, name)
    } else {
        let with_sep = joined(dir, "/");
        joined(with_sep.as_str(), name)
    }
}

/// `program` itself, where it is an absolute path to an executable file.
pub fn try_which_from_path(program: &String, executable: bool) -> (r: Option<String>)
    ensures
        r matches Some(p) ==> p == *program,
        r is Some <==> is_absolute(program@) && executable,
{
    if is_absolute_path(program.as_str()) && executable {
        Some(program.clone())
    } else {
        None
    }
}

/// The places where `program` is looked for, in the order of `search_order`.
pub fn which_candidates(program: &String, search_dirs: &Vec<String>) -> (r: Vec<String>)
    ensures
        views(r@) == search_order(program@, views(search_dirs@)),
{
    let ghost dirs = views(search_dirs@);
    let ghost joined_all = dirs.map_values(|d: Seq<char>| join_path(d, program@));
    let mut r: Vec<String> = Vec::new();
    if is_absolute_path(program.as_str()) {
        r.push(program.clone());
    }
    let ghost head = views(r@);
    assert(head == (if is_absolute(program@) {
        seq![program@]
    } else {
        Seq::<Seq<char>>::empty()
    }));
    let mut k: usize = 0;
    while k < search_dirs.len()
        invariant
            k <= search_dirs.len(),
            dirs == views(search_dirs@),
            joined_all == dirs.map_values(|d: Seq<char>| join_path(d, program@)),
            views(r@) == head + joined_all.subrange(0, k as int),
        decreases search_dirs.len() - k,
    {
        let ghost before = r@;
        let c = join(search_dirs[k].as_str(), program.as_str());
        r.push(c);
        assert(views(r@) =~= views(before).push(c@));
        assert(joined_all.subrange(0, k + 1) =~= joined_all.subrange(0, k as int).push(
            joined_all[k as int],
        ));
        k = k + 1;
    }
    assert(joined_all.subrange(0, k as int) =~= joined_all);
    r
}

/// The first place in the search order whose file is executable;
/// `executable` answers for each place of `search_order`, in order.
pub fn which(program: String, search_dirs: &Vec<String>, executable: &Vec<bool>) -> (r: Option<
    String,
>)
    requires
        executable.len() == search_order(program@, views(search_dirs@)).len(),
    ensures
        r matches Some(p) ==> first_found(search_order(program@, views(search_dirs@)), executable@)
            == Some(p@),
        r is None ==> first_found(search_order(program@, views(search_dirs@)), executable@) is None,
{
    let candidates = which_candidates(&program, search_dirs);
    let ghost all = views(candidates@);
    let ghost hits = executable@;
    let mut k: usize = 0;
    assert(all.skip(0) =~= all);
    assert(hits.skip(0) =~= hits);
    while k < candidates.len()
        invariant
            k <= candidates.len(),
            candidates.len() == executable.len(),
            all == views(candidates@),
            all == search_order(program@, views(search_dirs@)),
            hits == executable@,
            first_found(all, hits) == first_found(all.skip(k as int), hits.skip(k as int)),
        decreases candidates.len() - k,
    {
        if executable[k] {
            assert(all.skip(k as int)[0] == candidates@[k as int]@);
            assert(hits.skip(k as int)[0] == hits[k as int]);
            let found = candidates[k].clone();
            assert(found@ == all.skip(k as int)[0]);
            assert(first_found(all.skip(k as int), hits.skip(k as int)) == Some(found@));
            return Some(found);
        }
        assert(all.skip(k as int).skip(1) =~= all.skip(k + 1));
        assert(hits.skip(k as int).skip(1) =~= hits.skip(k + 1));
        k = k + 1;
    }
    None
}

} // verus!
