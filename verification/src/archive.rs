//! Paths inside an archive.

use vstd::prelude::*;
use vstd::string::StrSliceExecFns;
use vstd::string::StringExecFns;
use vstd::utf8::encode_utf8;

verus! {

/// The directories above the first `length` characters of `path`: for each
/// `/` among them that does not open the path, what stands before it.
pub open spec fn directories_within(path: Seq<char>, length: int) -> Seq<Seq<char>>
    decreases length,
{
    if length <= 0 {
        Seq::empty()
    } else if length - 1 > 0 && path[length - 1] == '/' {
        directories_within(path, length - 1).push(path.subrange(0, length - 1))
    } else {
        directories_within(path, length - 1)
    }
}

/// The directories that an asset at `path` lies in, the outermost first.
/// `a/b/c.txt` lies in `a` and in `a/b`.
pub open spec fn parent_directories(path: Seq<char>) -> Seq<Seq<char>> {
    directories_within(path, path.len() as int)
}

/// The views of a run of strings.
pub open spec fn string_views(strings: Seq<String>) -> Seq<Seq<char>> {
    strings.map_values(|string: String| string@)
}

/// The directories that an asset at `asset_path` lies in, the outermost
/// first. A path without `/` lies in none.
pub fn get_parent_directories(asset_path: &str) -> (result: Vec<String>)
    ensures
        string_views(result@) == parent_directories(asset_path@),
{
    let mut result: Vec<String> = Vec::new();
    let length = asset_path.unicode_len();
    let mut index: usize = 0;
    assert(string_views(result@) =~= directories_within(asset_path@, 0));
    while index < length
        invariant
            length == asset_path@.len(),
            index <= length,
            string_views(result@) == directories_within(asset_path@, index as int),
        decreases length - index,
    {
        if index > 0 && asset_path.get_char(index) == '/' {
            let directory = asset_path.substring_char(0, index).to_owned();
            let ghost before = result@;
            result.push(directory);
            assert(string_views(result@) =~= string_views(before).push(directory@));
        }
        index = index + 1;
    }
    result
}

/// How a file is stored in an archive.
#[derive(Clone, Copy, Debug, PartialEq, Eq)]
pub enum Compression {
    /// As it is.
    Off,
    /// Packed with the archive's usual method.
    Default,
}

/// A path with every `\` turned into `/`.
pub open spec fn with_forward_slashes(path: Seq<char>) -> Seq<char> {
    path.map_values(
        |c: char|
            if c == '\\' {
                '/'
            } else {
                c
            },
    )
}

/// The path under which an asset is stored in an archive: `path` with every
/// `\` turned into `/`.
pub fn normalize_path(path: &str) -> (normalized: String)
    ensures
        normalized@ == with_forward_slashes(path@),
{
    let mut normalized = String::new();
    let length = path.unicode_len();
    let mut index: usize = 0;
    proof {
        reveal_strlit("/");
    }
    assert(normalized@ =~= with_forward_slashes(path@.take(0)));
    while index < length
        invariant
            length == path@.len(),
            index <= length,
            "/"@ == seq!['/'],
            normalized@ == with_forward_slashes(path@.take(index as int)),
        decreases length - index,
    {
        let ghost before = normalized@;
        if path.get_char(index) == '\\' {
            normalized.append("/");
        } else {
            normalized.append(path.substring_char(index, index + 1));
        }
        index = index + 1;
        assert(normalized@ =~= with_forward_slashes(path@.take(index as int))) by {
            assert(path@.take(index as int) =~= path@.take(index - 1).push(path@[index - 1]));
            assert(path@.subrange(index - 1, index as int) =~= seq![path@[index - 1]]);
        }
    }
    assert(path@.take(index as int) =~= path@);
    normalized
}

/// Whether a path names a texture that is packed already: it ends in `.dds`.
pub open spec fn is_packed_texture(path: Seq<char>) -> bool {
    path.len() >= 4 && path.subrange(path.len() - 4, path.len() as int) == seq!['.', 'd', 'd', 's']
}

/// How the file at `path` is stored when it is copied into an archive: as it
/// was stored where it comes from, but without compression where it is a
/// texture that is packed already.
pub fn stored_compression(path: &str, compression: Compression) -> (chosen: Compression)
    ensures
        chosen == (if is_packed_texture(path@) {
            Compression::Off
        } else {
            compression
        }),
{
    let length = path.unicode_len();
    if length >= 4 && path.get_char(length - 4) == '.' && path.get_char(length - 3) == 'd' && path.get_char(
        length - 2,
    ) == 'd' && path.get_char(length - 1) == 's' {
        assert(path@.subrange(path@.len() - 4, path@.len() as int) =~= seq!['.', 'd', 'd', 's']);
        Compression::Off
    } else {
        assert(is_packed_texture(path@) ==> path@.subrange(path@.len() - 4, path@.len() as int)[0] == '.');
        assert(is_packed_texture(path@) ==> path@.subrange(path@.len() - 4, path@.len() as int)[1] == 'd');
        assert(is_packed_texture(path@) ==> path@.subrange(path@.len() - 4, path@.len() as int)[2] == 'd');
        assert(is_packed_texture(path@) ==> path@.subrange(path@.len() - 4, path@.len() as int)[3] == 's');
        compression
    }
}

/// Whether the bytes `left` come before the bytes `right`: they agree up to
/// some place at which `left` ends and `right` goes on, or at which `left`
/// has the smaller byte.
pub open spec fn bytes_lt(left: Seq<u8>, right: Seq<u8>) -> bool {
    exists|place: int| is_first_difference(left, right, place)
}

/// `left` and `right` agree before `place`, and at `place` either `left` ends
/// and `right` goes on, or `left` has the smaller byte.
pub open spec fn is_first_difference(left: Seq<u8>, right: Seq<u8>, place: int) -> bool {
    &&& 0 <= place <= left.len()
    &&& place <= right.len()
    &&& forall|i: int| 0 <= i < place ==> left[i] == right[i]
    &&& place < right.len()
    &&& place < left.len() ==> left[place] < right[place]
}

/// Whether the text `left` comes before the text `right` in the order of
/// their bytes, which is the order in which an archive lists its entries.
pub open spec fn text_lt(left: Seq<char>, right: Seq<char>) -> bool {
    bytes_lt(encode_utf8(left), encode_utf8(right))
}

/// Whether each text in `texts` comes before the texts behind it.
pub open spec fn is_ascending(texts: Seq<Seq<char>>) -> bool {
    forall|i: int, j: int| 0 <= i < j < texts.len() ==> text_lt(#[trigger] texts[i], #[trigger] texts[j])
}

/// Nothing comes before itself.
pub proof fn lemma_bytes_lt_irreflexive(bytes: Seq<u8>)
    ensures
        !bytes_lt(bytes, bytes),
{
}

/// What comes before something that comes before a third comes before the
/// third.
pub proof fn lemma_bytes_lt_transitive(first: Seq<u8>, second: Seq<u8>, third: Seq<u8>)
    requires
        bytes_lt(first, second),
        bytes_lt(second, third),
    ensures
        bytes_lt(first, third),
{
    let low = choose|place: int| is_first_difference(first, second, place);
    let high = choose|place: int| is_first_difference(second, third, place);
    if low <= high {
        assert(is_first_difference(first, third, low));
    } else {
        assert(is_first_difference(first, third, high));
    }
}

/// Texts with the same bytes are the same text.
pub proof fn lemma_same_bytes_same_text(left: Seq<char>, right: Seq<char>)
    requires
        encode_utf8(left) == encode_utf8(right),
    ensures
        left == right,
{
    vstd::utf8::encode_utf8_decode_utf8(left);
    vstd::utf8::encode_utf8_decode_utf8(right);
}

/// Texts in ascending order hold no text twice.
pub proof fn lemma_ascending_is_unique(texts: Seq<Seq<char>>)
    requires
        is_ascending(texts),
    ensures
        texts.no_duplicates(),
{
    assert forall|i: int, j: int| 0 <= i < texts.len() && 0 <= j < texts.len() && i != j implies texts[i]
        != texts[j] by {
        lemma_bytes_lt_irreflexive(encode_utf8(texts[i]));
        if i < j {
            assert(text_lt(texts[i], texts[j]));
        } else {
            assert(text_lt(texts[j], texts[i]));
        }
    }
}

/// How one text stands to another.
#[derive(Clone, Copy, Debug, PartialEq, Eq)]
pub enum Standing {
    Before,
    Same,
    After,
}

/// Says how the text `left` stands to the text `right` in the order of their
/// bytes.
pub fn compare_texts(left: &str, right: &str) -> (standing: Standing)
    ensures
        match standing {
            Standing::Before => text_lt(left@, right@),
            Standing::Same => left@ == right@,
            Standing::After => text_lt(right@, left@),
        },
{
    let left_bytes = left.as_bytes();
    let right_bytes = right.as_bytes();
    let mut place: usize = 0;
    while place < left_bytes.len() && place < right_bytes.len()
        invariant
            place <= left_bytes@.len(),
            place <= right_bytes@.len(),
            left_bytes@ == encode_utf8(left@),
            right_bytes@ == encode_utf8(right@),
            forall|i: int| 0 <= i < place ==> left_bytes@[i] == right_bytes@[i],
        decreases left_bytes@.len() - place,
    {
        if left_bytes[place] < right_bytes[place] {
            assert(is_first_difference(left_bytes@, right_bytes@, place as int));
            return Standing::Before;
        }
        if left_bytes[place] > right_bytes[place] {
            assert(is_first_difference(right_bytes@, left_bytes@, place as int));
            return Standing::After;
        }
        place = place + 1;
    }
    if place < right_bytes.len() {
        assert(is_first_difference(left_bytes@, right_bytes@, place as int));
        Standing::Before
    } else if place < left_bytes.len() {
        assert(is_first_difference(right_bytes@, left_bytes@, place as int));
        Standing::After
    } else {
        proof {
            assert(left_bytes@ =~= right_bytes@);
            lemma_same_bytes_same_text(left@, right@);
        }
        Standing::Same
    }
}

/// The directories that an archive under construction has to hold. Each is
/// held once, however often it is named, and they are kept in the order in
/// which the archive will list them.
pub struct DirectoryRegistry {
    seen: Vec<String>,
}

impl View for DirectoryRegistry {
    type V = Set<Seq<char>>;

    closed spec fn view(&self) -> Set<Seq<char>> {
        string_views(self.seen@).to_set()
    }
}

impl DirectoryRegistry {
    #[verifier::type_invariant]
    spec fn ascending(self) -> bool {
        is_ascending(string_views(self.seen@))
    }

    /// A registry without directories.
    pub fn new() -> (registry: DirectoryRegistry)
        ensures
            registry@ == Set::<Seq<char>>::empty(),
    {
        let registry = DirectoryRegistry { seen: Vec::new() };
        assert(registry@ =~= Set::<Seq<char>>::empty());
        registry
    }

    /// Number of directories held.
    pub fn len(&self) -> (count: usize)
        ensures
            self@.finite(),
            count == self@.len(),
    {
        proof {
            use_type_invariant(self);
            lemma_ascending_is_unique(string_views(self.seen@));
            string_views(self.seen@).unique_seq_to_set();
            vstd::seq_lib::seq_to_set_is_finite(string_views(self.seen@));
        }
        self.seen.len()
    }

    /// Whether the directory `path` is held.
    pub fn contains(&self, path: &str) -> (held: bool)
        ensures
            held == self@.contains(path@),
    {
        let mut index: usize = 0;
        while index < self.seen.len()
            invariant
                index <= self.seen@.len(),
                forall|i: int| 0 <= i < index ==> string_views(self.seen@)[i] != path@,
            decreases self.seen@.len() - index,
        {
            match compare_texts(self.seen[index].as_str(), path) {
                Standing::Same => {
                    assert(string_views(self.seen@)[index as int] == path@);
                    assert(string_views(self.seen@).contains(path@));
                    return true;
                },
                _ => {
                    proof {
                        lemma_bytes_lt_irreflexive(encode_utf8(path@));
                    }
                },
            }
            index = index + 1;
        }
        assert(!string_views(self.seen@).contains(path@));
        false
    }

    /// Holds the directory `path` from here on. One that is held already is
    /// not added again.
    pub fn add_directory(&mut self, path: &str)
        ensures
            final(self)@ == old(self)@.insert(path@),
    {
        proof {
            use_type_invariant(&*self);
        }
        let ghost before = string_views(self.seen@);
        let mut index: usize = 0;
        let mut placed = false;
        while !placed && index < self.seen.len()
            invariant
                index <= self.seen@.len(),
                self.seen@ == old(self).seen@,
                before == string_views(self.seen@),
                is_ascending(before),
                forall|i: int| 0 <= i < index ==> text_lt(before[i], path@),
                placed ==> index < before.len() && text_lt(path@, before[index as int]),
            decreases self.seen@.len() - index + (if placed { 0int } else { 1int }),
        {
            match compare_texts(self.seen[index].as_str(), path) {
                Standing::Before => {
                    index = index + 1;
                },
                Standing::Same => {
                    assert(before[index as int] == path@);
                    assert(before.contains(path@));
                    assert(before.to_set() =~= before.to_set().insert(path@));
                    return ;
                },
                Standing::After => {
                    placed = true;
                },
            }
        }
        let mut seen = Vec::new();
        std::mem::swap(&mut seen, &mut self.seen);
        seen.insert(index, path.to_owned());
        let ghost after = string_views(seen@);
        proof {
            assert(after =~= before.insert(index as int, path@));
            assert forall|i: int, j: int| 0 <= i < j < after.len() implies text_lt(
                #[trigger] after[i],
                #[trigger] after[j],
            ) by {
                if j < index {
                    assert(after[i] == before[i] && after[j] == before[j]);
                } else if j == index {
                    assert(after[i] == before[i]);
                } else if i < index {
                    assert(after[i] == before[i] && after[j] == before[j - 1]);
                    if j - 1 == i {
                    }
                } else if i == index {
                    assert(after[j] == before[j - 1]);
                    assert(placed);
                    if j - 1 > index {
                        assert(text_lt(before[index as int], before[j - 1]));
                        lemma_bytes_lt_transitive(
                            encode_utf8(path@),
                            encode_utf8(before[index as int]),
                            encode_utf8(before[j - 1]),
                        );
                    }
                } else {
                    assert(after[i] == before[i - 1] && after[j] == before[j - 1]);
                }
            }
            assert(after.to_set() =~= before.to_set().insert(path@)) by {
                assert forall|text: Seq<char>| after.to_set().contains(text) implies before.to_set().insert(
                    path@,
                ).contains(text) by {
                    let k = choose|k: int| 0 <= k < after.len() && after[k] == text;
                    if k < index {
                        assert(before[k] == text);
                        assert(before.contains(text));
                    } else if k > index {
                        assert(before[k - 1] == text);
                        assert(before.contains(text));
                    }
                }
                assert forall|text: Seq<char>| before.to_set().insert(path@).contains(text) implies after.to_set().contains(
                    text,
                ) by {
                    if text == path@ {
                        assert(after[index as int] == text);
                        assert(after.contains(text));
                    } else {
                        let k = choose|k: int| 0 <= k < before.len() && before[k] == text;
                        if k < index {
                            assert(after[k] == text);
                        } else {
                            assert(after[k + 1] == text);
                        }
                        assert(after.contains(text));
                    }
                }
            }
        }
        self.seen = seen;
    }

    /// Holds every directory that the asset at `asset_path` lies in.
    pub fn add_parents(&mut self, asset_path: &str)
        ensures
            final(self)@ == old(self)@.union(parent_directories(asset_path@).to_set()),
    {
        let directories = get_parent_directories(asset_path);
        let ghost parents = string_views(directories@);
        let mut index: usize = 0;
        assert(self@ =~= old(self)@.union(parents.take(0).to_set()));
        while index < directories.len()
            invariant
                index <= directories@.len(),
                parents == string_views(directories@),
                parents == parent_directories(asset_path@),
                self@ == old(self)@.union(parents.take(index as int).to_set()),
            decreases directories@.len() - index,
        {
            self.add_directory(directories[index].as_str());
            index = index + 1;
            assert(self@ =~= old(self)@.union(parents.take(index as int).to_set())) by {
                assert(parents.take(index as int) =~= parents.take(index - 1).push(parents[index - 1]));
                parents.take(index - 1).lemma_push_to_set_commute(parents[index - 1]);
            }
        }
        assert(parents.take(index as int) =~= parents);
    }

    /// The directories held, each once, in the order of their bytes: the
    /// order in which an archive lists them.
    pub fn into_sorted(self) -> (directories: Vec<String>)
        ensures
            string_views(directories@).to_set() == self@,
            is_ascending(string_views(directories@)),
    {
        proof {
            use_type_invariant(&self);
        }
        self.seen
    }
}

} // verus!
