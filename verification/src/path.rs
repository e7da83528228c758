//! Relative paths: a sequence of names, read from text with `/` between them.

use vstd::prelude::*;
use vstd::string::*;

verus! {

/// Why a text is not a relative path.
#[derive(Clone, Copy, Debug, PartialEq, Eq, Structural)]
pub enum PathError {
    /// The text begins with `/`.
    Absolute,
    /// A `..` leads above the directory the path is relative to.
    EscapesRoot,
}

/// The parts of `text` between its `/` characters; one more than there are `/`.
pub open spec fn split(text: Seq<char>) -> Seq<Seq<char>>
    decreases text.len(),
{
    if text.len() == 0 {
        seq![Seq::<char>::empty()]
    } else {
        let before = split(text.drop_last());
        if text.last() == '/' {
            before.push(Seq::<char>::empty())
        } else {
            before.update(before.len() - 1, before.last().push(text.last()))
        }
    }
}

/// What one more part does to the names read so far: an empty part and `.` change nothing,
/// `..` removes the last name, or fails where there is none, and any other part is a name.
pub open spec fn with_part(names: Option<Seq<Seq<char>>>, part: Seq<char>) -> Option<
    Seq<Seq<char>>,
> {
    match names {
        None => None,
        Some(names) => if part.len() == 0 || part == seq!['.'] {
            Some(names)
        } else if part == seq!['.', '.'] {
            if names.len() == 0 {
                None
            } else {
                Some(names.drop_last())
            }
        } else {
            Some(names.push(part))
        },
    }
}

/// The names that the parts denote, read from left to right.
pub open spec fn normalize(parts: Seq<Seq<char>>) -> Option<Seq<Seq<char>>>
    decreases parts.len(),
{
    if parts.len() == 0 {
        Some(Seq::empty())
    } else {
        with_part(normalize(parts.drop_last()), parts.last())
    }
}

/// The names of the relative path that `text` denotes.
pub open spec fn parse_relative(text: Seq<char>) -> Result<Seq<Seq<char>>, PathError> {
    if text.len() > 0 && text[0] == '/' {
        Err(PathError::Absolute)
    } else {
        match normalize(split(text)) {
            Some(names) => Ok(names),
            None => Err(PathError::EscapesRoot),
        }
    }
}

/// The names with `/` between them.
pub open spec fn join(names: Seq<Seq<char>>) -> Seq<char>
    decreases names.len(),
{
    if names.len() == 0 {
        Seq::empty()
    } else if names.len() == 1 {
        names[0]
    } else {
        join(names.drop_last()) + seq!['/'] + names.last()
    }
}

/// The texts of `names`, in order.
pub open spec fn texts(names: Seq<String>) -> Seq<Seq<char>> {
    Seq::new(names.len(), |i: int| names[i]@)
}

/// A path relative to the root of a directory tree.
#[derive(Clone, Debug, PartialEq, Eq)]
pub struct RelativePath {
    names: Vec<String>,
}

impl View for RelativePath {
    type V = Seq<Seq<char>>;

    closed spec fn view(&self) -> Seq<Seq<char>> {
        texts(self.names@)
    }
}

proof fn lemma_split_nonempty(text: Seq<char>)
    ensures
        split(text).len() > 0,
    decreases text.len(),
{
    if text.len() > 0 {
        lemma_split_nonempty(text.drop_last());
    }
}

/// Takes one more part into `names`; `false` where the part leads above the root.
fn take_part(names: &mut Vec<String>, part: &str) -> (kept: bool)
    ensures
        match with_part(Some(texts(old(names)@)), part@) {
            Some(after) => kept && texts(final(names)@) == after,
            None => !kept,
        },
{
    let len: usize = part.unicode_len();
    if len == 0 {
        return true;
    }
    if len == 1 && part.get_char(0) == '.' {
        assert(part@ =~= seq!['.']);
        return true;
    }
    if len == 2 && part.get_char(0) == '.' && part.get_char(1) == '.' {
        assert(part@ =~= seq!['.', '.']);
        if names.len() == 0 {
            return false;
        }
        names.pop();
        assert(texts(names@) =~= texts(old(names)@).drop_last());
        return true;
    }
    assert(part@ != seq!['.']) by {
        if part@ == seq!['.'] {
            assert(part@.len() == 1 && part@[0] == '.');
        }
    }
    assert(part@ != seq!['.', '.']) by {
        if part@ == seq!['.', '.'] {
            assert(part@.len() == 2 && part@[0] == '.' && part@[1] == '.');
        }
    }
    names.push(part.to_owned());
    assert(texts(names@) =~= texts(old(names)@).push(part@));
    true
}

impl RelativePath {
    /// Reads a relative path: names separated by `/`, where empty parts and `.` are
    /// skipped and `..` steps back over the name before it.
    pub fn new(text: &str) -> (r: Result<RelativePath, PathError>)
        ensures
            match parse_relative(text@) {
                Ok(names) => r is Ok && r->Ok_0@ == names,
                Err(e) => r == Err::<RelativePath, PathError>(e),
            },
    {
        let n: usize = text.unicode_len();
        if n > 0 && text.get_char(0) == '/' {
            return Err(PathError::Absolute);
        }
        let mut names: Vec<String> = Vec::new();
        let mut escaped = false;
        let mut start: usize = 0;
        let mut i: usize = 0;
        assert(text@.take(0) =~= Seq::<char>::empty());
        assert(split(text@.take(0)).drop_last() =~= Seq::<Seq<char>>::empty());
        assert(texts(names@) =~= Seq::<Seq<char>>::empty());
        assert(text@.subrange(0, 0) =~= Seq::<char>::empty());
        while i < n
            invariant
                n == text@.len(),
                start <= i <= n,
                normalize(split(text@.take(i as int)).drop_last()) == if escaped {
                    None
                } else {
                    Some(texts(names@))
                },
                split(text@.take(i as int)).len() > 0,
                split(text@.take(i as int)).last() == text@.subrange(start as int, i as int),
            decreases n - i,
        {
            let ghost parts = split(text@.take(i as int));
            proof {
                assert(text@.take(i + 1).drop_last() =~= text@.take(i as int));
                assert(text@.take(i + 1).last() == text@[i as int]);
                lemma_split_nonempty(text@.take(i + 1));
            }
            if text.get_char(i) == '/' {
                proof {
                    assert(split(text@.take(i + 1)) == parts.push(Seq::<char>::empty()));
                    assert(split(text@.take(i + 1)).drop_last() =~= parts);
                    assert(text@.subrange(i + 1, i + 1) =~= Seq::<char>::empty());
                }
                if !escaped {
                    let kept = take_part(&mut names, text.substring_char(start, i));
                    escaped = !kept;
                }
                start = i + 1;
            } else {
                proof {
                    let grown = parts.update(
                        parts.len() - 1,
                        parts.last().push(text@[i as int]),
                    );
                    assert(split(text@.take(i + 1)) == grown);
                    assert(grown.drop_last() =~= parts.drop_last());
                    assert(text@.subrange(start as int, i + 1) =~= text@.subrange(
                        start as int,
                        i as int,
                    ).push(text@[i as int]));
                }
            }
            i += 1;
        }
        proof {
            assert(text@.take(n as int) =~= text@);
        }
        if !escaped {
            let kept = take_part(&mut names, text.substring_char(start, n));
            escaped = !kept;
        }
        if escaped {
            Err(PathError::EscapesRoot)
        } else {
            Ok(RelativePath { names })
        }
    }

    /// The number of names in the path.
    pub fn len(&self) -> (n: usize)
        ensures
            n == self@.len(),
    {
        self.names.len()
    }

    /// The name at position `i`.
    pub fn name(&self, i: usize) -> (name: &String)
        requires
            i < self@.len(),
        ensures
            name@ == self@[i as int],
    {
        &self.names[i]
    }

    /// The path as text: its names with `/` between them.
    pub fn to_text(&self) -> (text: String)
        ensures
            text@ == join(self@),
    {
        let mut text = String::new();
        let mut i: usize = 0;
        while i < self.names.len()
            invariant
                i <= self.names@.len(),
                text@ == join(self@.take(i as int)),
            decreases self.names@.len() - i,
        {
            proof {
                assert(self@.take(i + 1).drop_last() =~= self@.take(i as int));
                assert(self@.take(i + 1).last() == self.names@[i as int]@);
                assert(i == 0 ==> self@.take(i + 1)[0] == self.names@[i as int]@);
            }
            if i > 0 {
                text.append("/");
                proof {
                    reveal_strlit("/");
                    assert("/"@ =~= seq!['/']);
                }
            }
            text.append(self.names[i].as_str());
            proof {
                if i == 0 {
                    assert(text@ =~= self.names@[i as int]@);
                }
            }
            i += 1;
        }
        proof {
            assert(self@.take(self.names@.len() as int) =~= self@);
        }
        text
    }
}

} // verus!
