//! Decisions on the command line: which subcommand was asked for, and which
//! pass-through flags are refused.
use vstd::prelude::*;
use crate::text::{has_prefix, is_prefix, same_text, views};

verus! {

/// The subcommand named after the first `l1x` word, and the words from that
/// subcommand on; `help` when there is none.
pub open spec fn command_split(s: Seq<Seq<char>>) -> (Seq<char>, Seq<Seq<char>>)
    decreases s.len(),
{
    if s.len() == 0 {
        ("help"@, s)
    } else if s[0] == "l1x"@ {
        if s.len() > 1 {
            (s[1], s.skip(1))
        } else {
            ("help"@, s)
        }
    } else {
        command_split(s.skip(1))
    }
}

/// Finds the subcommand of a `cargo l1x ...` invocation and drops the words
/// before it from `args`.
pub fn get_command(args: &mut Vec<String>) -> (r: String)
    ensures
        r@ == command_split(views(old(args)@)).0,
        views(final(args)@) == command_split(views(old(args)@)).1,
{
    let ghost all = views(args@);
    let mut i: usize = 0;
    proof {
        reveal_strlit("help");
        assert(all.skip(0) =~= all);
    }
    while i < args.len()
        invariant
            i <= args.len(),
            args@ == old(args)@,
            all == views(args@),
            command_split(all) == command_split(all.skip(i as int)),
        decreases args.len() - i,
    {
        if same_text(args[i].as_str(), "l1x") {
            let ghost rest = all.skip(i as int);
            assert(rest[0] == all[i as int]);
            if i + 1 < args.len() {
                let command = args[i + 1].clone();
                let mut tail: Vec<String> = Vec::new();
                let mut j: usize = i + 1;
                while j < args.len()
                    invariant
                        i + 1 <= j <= args.len(),
                        all == views(args@),
                        views(tail@) == all.subrange(i + 1, j as int),
                    decreases args.len() - j,
                {
                    let ghost before = tail@;
                    let word = args[j].clone();
                    assert(all[j as int] == word@);
                    tail.push(word);
                    assert(tail@ == before.push(word));
                    assert(views(tail@) =~= views(before).push(word@));
                    assert(all.subrange(i + 1, j + 1) =~= all.subrange(i + 1, j as int).push(all[j as int]));
                    j = j + 1;
                    assert(views(tail@) =~= all.subrange(i + 1, j as int));
                }
                assert(rest.skip(1) =~= all.subrange(i + 1, args.len() as int));
                *args = tail;
                return command;
            } else {
                let mut tail: Vec<String> = Vec::new();
                tail.push(args[i].clone());
                assert(views(tail@) =~= rest);
                *args = tail;
                return "help".to_owned();
            }
        }
        assert(all.skip(i as int).skip(1) =~= all.skip(i + 1));
        i = i + 1;
    }
    assert(all.skip(i as int) =~= Seq::<Seq<char>>::empty());
    *args = Vec::new();
    assert(views(args@) =~= Seq::<Seq<char>>::empty());
    "help".to_owned()
}

/// An argument that the build command does not let the caller change.
pub enum ArgError {
    /// The argument begins with this refused flag.
    Unchangeable(String),
}

impl ArgError {
    /// A sentence that describes the error.
    pub fn message(&self) -> (r: String)
        ensures
            self matches ArgError::Unchangeable(flag) ==> r@ == "This argument cannot be changed: "@
                + flag@,
    {
        match self {
            ArgError::Unchangeable(flag) => crate::text::joined(
                "This argument cannot be changed: ",
                flag.as_str(),
            ),
        }
    }
}

/// The first refused flag that `arg` begins with.
pub open spec fn blocked_by(arg: Seq<char>, exclude: Seq<Seq<char>>) -> Option<Seq<char>>
    decreases exclude.len(),
{
    if exclude.len() == 0 {
        None
    } else if is_prefix(exclude[0], arg) {
        Some(exclude[0])
    } else {
        blocked_by(arg, exclude.skip(1))
    }
}

/// The refused flag that the first refused argument begins with.
pub open spec fn first_blocked(args: Seq<Seq<char>>, exclude: Seq<Seq<char>>) -> Option<
    Seq<char>,
>
    decreases args.len(),
{
    if args.len() == 0 {
        None
    } else if blocked_by(args[0], exclude) is Some {
        blocked_by(args[0], exclude)
    } else {
        first_blocked(args.skip(1), exclude)
    }
}

/// The characters of each text, in order.
pub open spec fn str_views(v: Seq<&str>) -> Seq<Seq<char>> {
    v.map_values(|s: &str| s@)
}

fn refused_prefix(arg: &str, exclude: &Vec<&str>) -> (r: Option<usize>)
    ensures
        blocked_by(arg@, str_views(exclude@)) is None <==> r is None,
        r matches Some(k) ==> k < exclude.len() && blocked_by(arg@, str_views(exclude@)) == Some(
            exclude@[k as int]@,
        ),
{
    let ghost all = str_views(exclude@);
    let mut k: usize = 0;
    assert(all.skip(0) =~= all);
    while k < exclude.len()
        invariant
            k <= exclude.len(),
            all == str_views(exclude@),
            blocked_by(arg@, all) == blocked_by(arg@, all.skip(k as int)),
        decreases exclude.len() - k,
    {
        if has_prefix(arg, exclude[k]) {
            return Some(k);
        }
        assert(all.skip(k as int).skip(1) =~= all.skip(k + 1));
        k = k + 1;
    }
    None
}

/// Refuses the arguments when one of them begins with a flag of `exclude`:
/// the error names the flag that the first such argument begins with.
pub fn check_args_not_contains(args: Vec<String>, exclude: Vec<&str>) -> (r: Result<(), ArgError>)
    ensures
        r is Ok <==> first_blocked(views(args@), str_views(exclude@)) is None,
        r matches Err(ArgError::Unchangeable(flag)) ==> first_blocked(
            views(args@),
            str_views(exclude@),
        ) == Some(flag@),
{
    let ghost all = views(args@);
    let mut i: usize = 0;
    assert(all.skip(0) =~= all);
    while i < args.len()
        invariant
            i <= args.len(),
            all == views(args@),
            first_blocked(all, str_views(exclude@)) == first_blocked(
                all.skip(i as int),
                str_views(exclude@),
            ),
        decreases args.len() - i,
    {
        match refused_prefix(args[i].as_str(), &exclude) {
            Some(k) => {
                assert(all.skip(i as int)[0] == args@[i as int]@);
                return Err(ArgError::Unchangeable(exclude[k].to_owned()));
            },
            None => {},
        }
        assert(all.skip(i as int)[0] == args@[i as int]@);
        assert(all.skip(i as int).skip(1) =~= all.skip(i + 1));
        i = i + 1;
    }
    Ok(())
}

} // verus!
