//! Where the attributes of a device are looked for in sysfs.

use vstd::prelude::*;

use crate::text;
use crate::text::{from_chars, to_chars, trim};

verus! {

/// `s` without the `unwanted` characters at its front.
pub open spec fn without_leading(s: Seq<char>, unwanted: char) -> Seq<char>
    decreases s.len(),
{
    if s.len() > 0 && s.first() == unwanted {
        without_leading(s.drop_first(), unwanted)
    } else {
        s
    }
}

/// The sysfs directory of a device path.
pub open spec fn sysfs_path(devpath: Seq<char>) -> Seq<char> {
    "/sys/"@ + without_leading(devpath, '/')
}

/// The text of a path before its last slash, and the component behind it.
pub open spec fn cut_component(path: Seq<char>) -> (Seq<char>, Seq<char>)
    decreases path.len(),
{
    if path.len() == 0 {
        (Seq::empty(), Seq::empty())
    } else if path.last() == '/' {
        (path.drop_last(), Seq::empty())
    } else {
        let (rest, component) = cut_component(path.drop_last());
        (rest, component.push(path.last()))
    }
}

/// What is cut off a path is shorter than the path.
pub proof fn lemma_cut_component_shorter(path: Seq<char>)
    requires
        path.len() > 0,
    ensures
        cut_component(path).0.len() < path.len(),
    decreases path.len(),
{
    if path.last() != '/' {
        if path.len() > 1 {
            lemma_cut_component_shorter(path.drop_last());
        } else {
            assert(path.drop_last().len() == 0);
            assert(cut_component(path.drop_last()).0.len() == 0);
        }
    }
}

/// A path below the root without the components at its end that name nothing: empty ones and `.`.
pub open spec fn settled(path: Seq<char>) -> Seq<char>
    decreases path.len(),
{
    if path.len() == 0 {
        path
    } else {
        let (rest, component) = cut_component(path);
        if component.len() == 0 || component == seq!['.'] {
            proof {
                lemma_cut_component_shorter(path);
            }
            settled(rest)
        } else {
            path
        }
    }
}

/// Settling never makes a path longer.
pub proof fn lemma_settled_not_longer(path: Seq<char>)
    ensures
        settled(path).len() <= path.len(),
    decreases path.len(),
{
    if path.len() > 0 {
        lemma_cut_component_shorter(path);
        lemma_settled_not_longer(cut_component(path).0);
    }
}

/// The directory that holds an absolute path; the root has none.
pub open spec fn parent_of(path: Seq<char>) -> Option<Seq<char>> {
    let below = settled(path.skip(1));
    if below.len() == 0 {
        None
    } else {
        Some(seq!['/'] + settled(cut_component(below).0))
    }
}

/// A parent is shorter than the path, and absolute.
pub proof fn lemma_parent_shorter(path: Seq<char>)
    requires
        path.len() > 0,
        parent_of(path) is Some,
    ensures
        parent_of(path)->0.len() < path.len(),
        parent_of(path)->0.len() > 0,
{
    lemma_settled_not_longer(path.skip(1));
    let below = settled(path.skip(1));
    lemma_cut_component_shorter(below);
    lemma_settled_not_longer(cut_component(below).0);
}

/// An absolute path and the directories above it, from the innermost to the root.
pub open spec fn upwards(path: Seq<char>) -> Seq<Seq<char>>
    decreases path.len(),
{
    if path.len() == 0 {
        Seq::empty()
    } else {
        match parent_of(path) {
            Some(parent) => {
                proof {
                    lemma_parent_shorter(path);
                }
                seq![path] + upwards(parent)
            },
            None => seq![path],
        }
    }
}

/// A file in a directory.
pub open spec fn file_in(directory: Seq<char>, name: Seq<char>) -> Seq<char> {
    if directory.len() == 0 || directory.last() == '/' {
        directory + name
    } else {
        directory + seq!['/'] + name
    }
}

/// The files that may hold an attribute of a device, from the device itself upwards.
pub open spec fn attribute_files(devpath: Seq<char>, attribute: Seq<char>) -> Seq<Seq<char>> {
    upwards(sysfs_path(devpath)).map_values(|directory: Seq<char>| file_in(directory, attribute))
}

/// The sysfs directory of a device path.
pub fn sysfs_path_from_devpath(devpath: &str) -> (path: String)
    ensures
        path@ == sysfs_path(devpath@),
{
    let chars = to_chars(devpath);
    let mut start: usize = 0;
    assert(chars@.skip(0) == chars@);
    while start < chars.len() && chars[start] == '/'
        invariant
            start <= chars@.len(),
            without_leading(chars@.skip(start as int), '/') == without_leading(chars@, '/'),
        decreases chars@.len() - start,
    {
        assert(chars@.skip(start as int).drop_first() == chars@.skip(start + 1));
        start += 1;
    }
    assert(chars@.skip(start as int) == chars@.subrange(start as int, chars@.len() as int));
    let mut path = "/sys/".to_owned();
    path.append(from_chars(&chars, start, chars.len()).as_str());
    path
}

/// Where the last component of `chars[1..end]` begins.
fn component_start(chars: &Vec<char>, end: usize) -> (start: usize)
    requires
        1 <= end <= chars@.len(),
    ensures
        1 <= start <= end,
        cut_component(chars@.subrange(1, end as int)) == (
            if start > 1 {
                chars@.subrange(1, start - 1)
            } else {
                Seq::empty()
            },
            chars@.subrange(start as int, end as int),
        ),
{
    let mut start: usize = end;
    while start > 1 && chars[start - 1] != '/'
        invariant
            1 <= start <= end <= chars@.len(),
            forall|k: int| start <= k < end ==> chars@[k] != '/',
        decreases start,
    {
        start -= 1;
    }
    proof {
        lemma_cut_component_at(chars@, start as int, end as int);
    }
    start
}

/// A component that begins at `start` is what is cut off.
proof fn lemma_cut_component_at(chars: Seq<char>, start: int, end: int)
    requires
        1 <= start <= end <= chars.len(),
        start == 1 || chars[start - 1] == '/',
        forall|k: int| start <= k < end ==> chars[k] != '/',
    ensures
        cut_component(chars.subrange(1, end)) == (
            if start > 1 {
                chars.subrange(1, start - 1)
            } else {
                Seq::empty()
            },
            chars.subrange(start, end),
        ),
    decreases end,
{
    let path = chars.subrange(1, end);
    if end > start {
        assert(path.drop_last() == chars.subrange(1, end - 1));
        assert(path.last() == chars[end - 1]);
        lemma_cut_component_at(chars, start, end - 1);
        assert(chars.subrange(start, end - 1).push(chars[end - 1]) == chars.subrange(start, end));
    } else if start > 1 {
        assert(path.last() == '/');
        assert(path.drop_last() == chars.subrange(1, start - 1));
        assert(chars.subrange(start, end) == Seq::<char>::empty());
    } else {
        assert(chars.subrange(start, end) == Seq::<char>::empty());
    }
}

/// Where `chars[1..end]` ends once it is settled.
fn settled_end(chars: &Vec<char>, end: usize) -> (result: usize)
    requires
        1 <= end <= chars@.len(),
    ensures
        1 <= result <= end,
        chars@.subrange(1, result as int) == settled(chars@.subrange(1, end as int)),
{
    let mut result: usize = end;
    while result > 1
        invariant
            1 <= result <= end <= chars@.len(),
            settled(chars@.subrange(1, result as int)) == settled(chars@.subrange(1, end as int)),
        decreases result,
    {
        let start: usize = component_start(chars, result);
        let ghost component = chars@.subrange(start as int, result as int);
        if start == result || (start + 1 == result && chars[start] == '.') {
            assert(start < result ==> component == seq!['.']);
            let next: usize = if start > 1 {
                start - 1
            } else {
                1
            };
            assert(start == 1 ==> chars@.subrange(1, next as int) == Seq::<char>::empty());
            result = next;
        } else {
            assert(component.len() > 0);
            assert(component != seq!['.']) by {
                if component == seq!['.'] {
                    assert(component.len() == 1);
                    assert(component[0] == '.');
                }
            }
            return result;
        }
    }
    result
}

/// The directory that holds an absolute path; the root has none.
pub fn parent(path: &str) -> (result: Option<String>)
    requires
        path@.len() > 0,
        path@[0] == '/',
    ensures
        text::opt_view(result) == parent_of(path@),
{
    let chars = to_chars(path);
    assert(path@.skip(1) == chars@.subrange(1, chars@.len() as int));
    let end: usize = settled_end(&chars, chars.len());
    if end == 1 {
        return None;
    }
    let start: usize = component_start(&chars, end);
    let cut: usize = if start > 1 {
        start - 1
    } else {
        1
    };
    assert(start == 1 ==> chars@.subrange(1, cut as int) == Seq::<char>::empty());
    let kept: usize = settled_end(&chars, cut);
    assert(chars@.subrange(0, kept as int) == seq!['/'] + chars@.subrange(1, kept as int));
    Some(from_chars(&chars, 0, kept))
}

/// A file in a directory.
pub fn join_file(directory: &str, name: &str) -> (path: String)
    ensures
        path@ == file_in(directory@, name@),
{
    let chars = to_chars(directory);
    let mut path = directory.to_owned();
    if chars.len() > 0 && chars[chars.len() - 1] != '/' {
        path.push('/');
    }
    path.append(name);
    assert(path@ == file_in(directory@, name@));
    path
}

/// The files that may hold an attribute of a device, from the device itself upwards.
pub fn attribute_candidates(devpath: &str, attribute: &str) -> (files: Vec<String>)
    ensures
        text::views(files@) == attribute_files(devpath@, attribute@),
{
    let ghost in_directory = |directory: Seq<char>| file_in(directory, attribute@);
    let mut files: Vec<String> = Vec::new();
    let mut directory = sysfs_path_from_devpath(devpath);
    proof {
        reveal_strlit("/sys/");
        assert(directory@[0] == "/sys/"@[0]);
    }
    let ghost all = upwards(directory@).map_values(in_directory);
    assert(text::views(files@) + all == all);
    loop
        invariant
            in_directory == (|directory: Seq<char>| file_in(directory, attribute@)),
            directory@.len() > 0,
            directory@[0] == '/',
            all == upwards(sysfs_path(devpath@)).map_values(in_directory),
            text::views(files@) + upwards(directory@).map_values(in_directory) == all,
        decreases directory@.len(),
    {
        let ghost before = text::views(files@);
        let ghost above = upwards(directory@);
        let file = join_file(directory.as_str(), attribute);
        files.push(file);
        assert(text::views(files@) == before.push(in_directory(directory@)));
        match parent(directory.as_str()) {
            Some(next) => {
                proof {
                    lemma_parent_shorter(directory@);
                    assert(above == seq![directory@] + upwards(next@));
                    assert(before + above.map_values(in_directory) == text::views(files@)
                        + upwards(next@).map_values(in_directory));
                }
                directory = next;
            },
            None => {
                assert(above == seq![directory@]);
                assert(before + above.map_values(in_directory) == text::views(files@));
                return files;
            },
        }
    }
}

/// The value that the contents of an attribute file give: what is left without white space at the
/// ends, unless that is nothing.
pub open spec fn usable_value(contents: Seq<char>) -> Option<Seq<char>> {
    if text::trimmed(contents).len() > 0 {
        Some(text::trimmed(contents))
    } else {
        None
    }
}

/// What a file gives that could be read, or could not.
pub open spec fn value_of_read(read: Option<Seq<char>>) -> Option<Seq<char>> {
    match read {
        Some(contents) => usable_value(contents),
        None => None,
    }
}

/// The first usable value among what was read of the candidate files, in their order.
pub open spec fn first_usable(reads: Seq<Option<Seq<char>>>) -> Option<Seq<char>>
    decreases reads.len(),
{
    if reads.len() == 0 {
        None
    } else {
        match value_of_read(reads.first()) {
            Some(value) => Some(value),
            None => first_usable(reads.drop_first()),
        }
    }
}

/// The contents of a list of reads.
pub open spec fn read_views(reads: Seq<Option<String>>) -> Seq<Option<Seq<char>>> {
    reads.map_values(|read: Option<String>| text::opt_view(read))
}

/// The value of an attribute, from what was read of its candidate files in their order; a file
/// that could not be read is `None`.
pub fn read_attr_upwards(reads: &Vec<Option<String>>) -> (value: Option<String>)
    ensures
        text::opt_view(value) == first_usable(read_views(reads@)),
{
    let ghost views = read_views(reads@);
    let mut i: usize = 0;
    assert(views.skip(0) == views);
    while i < reads.len()
        invariant
            i <= reads@.len(),
            views == read_views(reads@),
            first_usable(views.skip(i as int)) == first_usable(views),
        decreases reads@.len() - i,
    {
        assert(views.skip(i as int).first() == text::opt_view(reads@[i as int]));
        assert(views.skip(i as int).drop_first() == views.skip(i + 1));
        if let Some(contents) = &reads[i] {
            let value = trim(contents.as_str());
            if !value.as_str().is_empty() {
                return Some(value);
            }
        }
        i += 1;
    }
    None
}

/// Once a usable value was read, further reads do not change the value of the attribute.
pub proof fn lemma_first_usable_is_final(
    reads: Seq<Option<Seq<char>>>,
    more: Seq<Option<Seq<char>>>,
)
    requires
        first_usable(reads) is Some,
    ensures
        first_usable(reads + more) == first_usable(reads),
    decreases reads.len(),
{
    assert((reads + more).first() == reads.first());
    if value_of_read(reads.first()) is None {
        assert((reads + more).drop_first() == reads.drop_first() + more);
        lemma_first_usable_is_final(reads.drop_first(), more);
    }
}

/// A usable value is never empty.
pub proof fn lemma_first_usable_not_empty(reads: Seq<Option<Seq<char>>>)
    ensures
        first_usable(reads) is Some ==> first_usable(reads)->0.len() > 0,
    decreases reads.len(),
{
    if reads.len() > 0 {
        lemma_first_usable_not_empty(reads.drop_first());
    }
}

} // verus!
