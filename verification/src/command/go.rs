use vstd::prelude::*;
use crate::text::text_views;

verus! {

/// The words that follow the word at `args_pos`.
pub open spec fn words_after(args: Seq<Seq<char>>, args_pos: int) -> Seq<Seq<char>> {
    if 0 <= args_pos < args.len() {
        args.skip(args_pos + 1)
    } else {
        Seq::empty()
    }
}

/// Copies out the words of the command line that follow the name of the
/// subcommand: they are what is run in each repository.
pub fn command_words(args: &Vec<String>, args_pos: usize) -> (r: Vec<String>)
    ensures
        text_views(r@) == words_after(text_views(args@), args_pos as int),
{
    let mut out: Vec<String> = Vec::new();
    if args_pos >= args.len() {
        assert(text_views(out@) =~= Seq::<Seq<char>>::empty());
        return out;
    }
    let start = args_pos + 1;
    let mut at: usize = start;
    while at < args.len()
        invariant
            start <= at <= args.len(),
            out.len() == at - start,
            forall|i: int| 0 <= i < at - start ==> #[trigger] text_views(out@)[i] == args@[start + i]@,
        decreases args.len() - at,
    {
        let ghost before = text_views(out@);
        out.push(args[at].clone());
        assert(text_views(out@) =~= before.push(args@[at as int]@));
        at += 1;
    }
    assert(text_views(out@) =~= words_after(text_views(args@), args_pos as int));
    out
}

} // verus!
