//! What a worker's shell commands are given: the environment variables of
//! a workspace and the preprocessor flags of a binding.

use crate::text::{decimal, to_decimal};
use vstd::prelude::*;

verus! {

/// The variable that tells a command the index of its workspace.
pub const PARABUILD_ID: &'static str = "PARABUILD_ID";

/// The variable that confines a command to one GPU partition.
pub const CUDA_VISIBLE_DEVICES: &'static str = "CUDA_VISIBLE_DEVICES";

/// The variable that carries a binding to a Makefile.
pub const CPPFLAGS: &'static str = "CPPFLAGS";

/// The flag that every exported binding starts with.
pub const PARABUILD_FLAG: &'static str = "-DPARABUILD=ON ";

/// The preprocessor flags of a binding: the marker flag, then
/// `-Dkey=value` for each definition in order, each followed by a space.
pub open spec fn cppflags_of(definitions: Seq<(Seq<char>, Seq<char>)>) -> Seq<char>
    decreases definitions.len(),
{
    if definitions.len() == 0 {
        PARABUILD_FLAG@
    } else {
        cppflags_of(definitions.drop_last()) + "-D"@ + definitions.last().0 + "="@
            + definitions.last().1 + " "@
    }
}

/// The keys and texts of a list of definitions.
pub open spec fn definition_texts(definitions: Seq<(String, String)>) -> Seq<
    (Seq<char>, Seq<char>),
> {
    Seq::new(definitions.len(), |i: int| (definitions[i].0@, definitions[i].1@))
}

/// Writes the value of `CPPFLAGS` for a binding whose top-level members
/// are `definitions`, each a key and the text of its value: see
/// [`cppflags_of`].
pub fn cppflags(definitions: &Vec<(String, String)>) -> (flags: String)
    ensures
        flags@ == cppflags_of(definition_texts(definitions@)),
{
    let ghost all = definition_texts(definitions@);
    let mut flags = String::from_str(PARABUILD_FLAG);
    let mut i: usize = 0;
    assert(all.take(0) =~= Seq::empty());
    while i < definitions.len()
        invariant
            i <= definitions.len(),
            all == definition_texts(definitions@),
            flags@ == cppflags_of(all.take(i as int)),
        decreases definitions.len() - i,
    {
        assert(all.take(i + 1).drop_last() =~= all.take(i as int));
        assert(all.take(i + 1).last() == all[i as int]);
        flags.append("-D");
        flags.append(definitions[i].0.as_str());
        flags.append("=");
        flags.append(definitions[i].1.as_str());
        flags.append(" ");
        i += 1;
    }
    assert(all.take(all.len() as int) =~= all);
    flags
}

/// The environment of the commands of workspace `index`: its index, the
/// GPU partition with that index if there is one, and the preprocessor
/// flags if any are given.
pub open spec fn environment_of(
    index: usize,
    isolation_ids: Seq<Seq<char>>,
    flags: Option<Seq<char>>,
) -> Seq<(Seq<char>, Seq<char>)> {
    let id = seq![(PARABUILD_ID@, decimal(index as nat))];
    let device = if index < isolation_ids.len() {
        seq![(CUDA_VISIBLE_DEVICES@, isolation_ids[index as int])]
    } else {
        Seq::empty()
    };
    let cpp = match flags {
        Some(f) => seq![(CPPFLAGS@, f)],
        None => Seq::empty(),
    };
    id + device + cpp
}

/// Lists the environment variables for the commands of workspace `index`:
/// see [`environment_of`].
pub fn environment(index: usize, isolation_ids: &Vec<String>, flags: Option<String>) -> (env: Vec<
    (String, String),
>)
    ensures
        definition_texts(env@) == environment_of(
            index,
            Seq::new(isolation_ids@.len(), |i: int| isolation_ids@[i]@),
            match flags {
                Some(f) => Some(f@),
                None => None,
            },
        ),
{
    let mut env: Vec<(String, String)> = Vec::new();
    env.push((String::from_str(PARABUILD_ID), to_decimal(index)));
    if index < isolation_ids.len() {
        env.push((String::from_str(CUDA_VISIBLE_DEVICES), isolation_ids[index].clone()));
    }
    match flags {
        Some(f) => {
            env.push((String::from_str(CPPFLAGS), f));
        },
        None => {},
    }
    assert(definition_texts(env@) =~= environment_of(
        index,
        Seq::new(isolation_ids@.len(), |i: int| isolation_ids@[i]@),
        match flags {
            Some(f) => Some(f@),
            None => None,
        },
    ));
    env
}

} // verus!
