//! The command record: one simple command as the tokenizer produced it.

use vstd::prelude::*;

verus! {

/// One simple command: its name, its argument tokens kept verbatim
/// (including any quoting characters), and the re-assembled source text.
#[derive(Clone, Debug)]
pub struct Command {
    pub name: String,
    pub args: Vec<String>,
    pub text: String,
}

/// Mathematical model of a `Command`.
#[verifier::ext_equal]
pub ghost struct CmdModel {
    pub name: Seq<char>,
    pub args: Seq<Seq<char>>,
    pub text: Seq<char>,
}

impl View for Command {
    type V = CmdModel;

    open spec fn view(&self) -> CmdModel {
        CmdModel { name: self.name@, args: self.args.deep_view(), text: self.text@ }
    }
}

impl DeepView for Command {
    type V = CmdModel;

    open spec fn deep_view(&self) -> CmdModel {
        self.view()
    }
}

/// The non-flag arguments of a command, in order: its candidate path
/// arguments.
pub open spec fn spec_file_args(args: Seq<Seq<char>>) -> Seq<Seq<char>>
    decreases args.len(),
{
    if args.len() == 0 {
        Seq::empty()
    } else {
        let front = spec_file_args(args.drop_last());
        if crate::strutil::spec_first_is(args.last(), '-') {
            front
        } else {
            front.push(args.last())
        }
    }
}

/// Collect the non-flag arguments of a command.
pub fn file_args(args: &Vec<String>) -> (r: Vec<String>)
    ensures
        r.deep_view() == spec_file_args(args.deep_view()),
{
    let ghost av = args.deep_view();
    let mut out: Vec<String> = Vec::new();
    let mut i: usize = 0;
    proof {
        assert(av.take(0) =~= Seq::<Seq<char>>::empty());
        assert(out.deep_view() =~= spec_file_args(av.take(0)));
    }
    while i < args.len()
        invariant
            i <= args@.len(),
            av == args.deep_view(),
            out.deep_view() == spec_file_args(av.take(i as int)),
        decreases args.len() - i,
    {
        let ghost pre = out.deep_view();
        proof {
            assert(av[i as int] == args@[i as int]@);
            assert(av.take(i as int + 1).drop_last() =~= av.take(i as int));
            assert(av.take(i as int + 1).last() == av[i as int]);
        }
        if !crate::strutil::first_is(args[i].as_str(), '-') {
            out.push(args[i].clone());
            proof {
                assert(out.deep_view() =~= pre.push(av[i as int]));
            }
        }
        i += 1;
    }
    proof {
        assert(av.take(av.len() as int) =~= av);
    }
    out
}

} // verus!
