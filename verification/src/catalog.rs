//! Fill-in catalogs: the candidate values for one kind of placeholder, read
//! from a line-oriented store.

use vstd::prelude::*;
use vstd::string::StringExecFns;
use crate::error::PipelineError;
use crate::random::pick_one;
use crate::text::texts_of;

verus! {

/// A line that begins with `#` is a comment.
pub open spec fn is_comment(line: Seq<char>) -> bool {
    line.len() > 0 && line[0] == '#'
}

/// The candidates among the lines of a catalog: every line that is no
/// comment, in the order of the store. A blank line is a candidate too.
pub open spec fn candidates(lines: Seq<Seq<char>>) -> Seq<Seq<char>> {
    lines.filter(|line: Seq<char>| !is_comment(line))
}

/// Whether `line` is a comment.
pub fn is_comment_line(line: &str) -> (comment: bool)
    ensures
        comment == is_comment(line@),
{
    let mut first = line.chars();
    match first.next() {
        Some(c) => c == '#',
        None => false,
    }
}

/// Where the catalog called `name` is kept.
pub open spec fn catalog_path(name: Seq<char>) -> Seq<char> {
    "resources/"@ + name + ".txt"@
}

/// The path of the store that holds the catalog called `name`.
pub fn fill_in_path(name: &str) -> (path: String)
    ensures
        path@ == catalog_path(name@),
{
    "resources/".to_owned().concat(name).concat(".txt")
}

/// The candidates among the lines of a catalog's store: the lines that are
/// no comments, in their order.
pub fn fill_ins(lines: &Vec<String>) -> (entries: Vec<String>)
    ensures
        texts_of(entries@) == candidates(texts_of(lines@)),
{
    let mut entries: Vec<String> = Vec::new();
    let mut i: usize = 0;
    assert(texts_of(lines@).take(0) =~= Seq::<Seq<char>>::empty());
    while i < lines.len()
        invariant
            i <= lines.len(),
            texts_of(entries@) == candidates(texts_of(lines@).take(i as int)),
        decreases lines.len() - i,
    {
        let ghost seen = texts_of(lines@).take(i as int);
        let ghost kept = texts_of(entries@);
        proof {
            reveal(Seq::filter);
            assert(texts_of(lines@).take(i + 1).drop_last() =~= seen);
            assert(texts_of(lines@).take(i + 1).last() == lines@[i as int]@);
        }
        if !is_comment_line(lines[i].as_str()) {
            entries.push(lines[i].clone());
            assert(texts_of(entries@) =~= kept.push(lines@[i as int]@));
        }
        i += 1;
    }
    assert(texts_of(lines@).take(lines.len() as int) =~= texts_of(lines@));
    entries
}

/// One candidate of the catalog, picked at random with every candidate as
/// likely as the next. An empty catalog has nothing to pick.
pub fn choose_random_item(entries: &Vec<String>) -> (item: Result<String, PipelineError>)
    ensures
        entries@.len() == 0 <==> item is Err,
        item matches Err(e) ==> e == PipelineError::EmptyCatalog,
        item matches Ok(value) ==> texts_of(entries@).contains(value@),
{
    match pick_one(entries) {
        Some(picked) => {
            proof {
                let at = choose|at: int| 0 <= at < entries@.len() && entries@[at] == *picked;
                assert(texts_of(entries@)[at] == picked@);
            }
            Ok(picked.clone())
        },
        None => Err(PipelineError::EmptyCatalog),
    }
}

} // verus!
