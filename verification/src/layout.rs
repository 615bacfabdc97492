use vstd::prelude::*;

use crate::text::joined;

verus! {

/// The dictionaries of the store: the name of each one's directory under the root, and the
/// address of the copy that is embedded in the program.
pub const DICTS: [(&'static str, &'static str); 3] = [
    ("cc-cedict", "embedded://cc-cedict"),
    ("ipadic", "embedded://ipadic"),
    ("ko-dic", "embedded://ko-dic"),
];

/// The double array of the prefix dictionary.
pub const DA_FILE: &'static str = "dict.da";

/// The word entries of the prefix dictionary.
pub const VALS_FILE: &'static str = "dict.vals";

/// The offsets into the word details.
pub const WORDS_IDX_FILE: &'static str = "dict.wordsidx";

/// The word details.
pub const WORDS_FILE: &'static str = "dict.words";

/// The connection cost matrix.
pub const MATRIX_FILE: &'static str = "matrix.mtx";

/// The character definition.
pub const CHAR_DEF_FILE: &'static str = "char_def.bin";

/// The unknown word dictionary.
pub const UNK_FILE: &'static str = "unk.bin";

/// The metadata, as JSON.
pub const METADATA_FILE: &'static str = "metadata.json";

/// The marker that is written behind all the others: where it is present the dictionary is
/// complete.
pub const READY_MARKER: &'static str = ".materialized";

/// The files of one dictionary's directory, in the order in which they are written.
pub const FILES: [&'static str; 9] = [
    DA_FILE,
    VALS_FILE,
    WORDS_IDX_FILE,
    WORDS_FILE,
    MATRIX_FILE,
    CHAR_DEF_FILE,
    UNK_FILE,
    METADATA_FILE,
    READY_MARKER,
];

/// The number of dictionaries.
pub const DICT_COUNT: usize = 3;

/// The number of files in a dictionary's directory.
pub const FILE_COUNT: usize = 9;

/// The environment variable that moves the root of the store.
pub const ROOT_VARIABLE: &'static str = "PARADEDB_LINDERA_DICT_ROOT";

/// The root of the store where nothing moves it.
pub const DEFAULT_ROOT: &'static str = "/var/lib/postgresql/lindera-dicts";

/// The name of a file of a dictionary's directory.
pub open spec fn file_name(i: int) -> Seq<char> {
    FILES@[i]@
}

/// The name of a dictionary's directory.
pub open spec fn dict_name(i: int) -> Seq<char> {
    DICTS@[i].0@
}

/// The address of a dictionary's embedded copy.
pub open spec fn dict_uri(i: int) -> Seq<char> {
    DICTS@[i].1@
}

/// Where the store lies, given the value of [`ROOT_VARIABLE`].
pub open spec fn chosen_root(variable: Option<Seq<char>>) -> Seq<char> {
    match variable {
        Some(path) => path,
        None => DEFAULT_ROOT@,
    }
}

/// The variable moves the root to any place: each value to one of its own, which is the value.
/// Where it is not set the root is the one that its setting to the default would give.
pub proof fn law_variable_moves_the_root(a: Seq<char>, b: Seq<char>)
    ensures
        chosen_root(Some(a)) == a,
        a != b ==> chosen_root(Some(a)) != chosen_root(Some(b)),
        chosen_root(None) == chosen_root(Some("/var/lib/postgresql/lindera-dicts"@)),
{
}

/// Where the store lies, given the value of [`ROOT_VARIABLE`] (`None` where it is not set, or
/// holds no text).
pub fn default_dict_root(variable: Option<String>) -> (root: String)
    ensures
        root@ == match variable {
            Some(path) => path@,
            None => DEFAULT_ROOT@,
        },
        root@ == chosen_root(
            match variable {
                Some(path) => Some(path@),
                None => None,
            },
        ),
        variable matches Some(path) ==> root@ == path@,
{
    match variable {
        Some(path) => path,
        None => DEFAULT_ROOT.to_owned(),
    }
}

/// Which of the files that tell whether a dictionary is complete are present.
#[derive(Clone, Copy, PartialEq, Eq, Structural, Debug)]
pub struct Presence {
    pub marker: bool,
    pub da: bool,
    pub metadata: bool,
}

impl Presence {
    /// All three are there.
    pub open spec fn complete(self) -> bool {
        self.marker && self.da && self.metadata
    }
}

/// Whether a dictionary is on disk, complete: its marker is there, and so are the first and the
/// last of the files that the marker stands for.
pub fn dict_is_ready(present: Presence) -> (ready: bool)
    ensures
        ready == present.complete(),
        ready <==> present.marker && present.da && present.metadata,
{
    present.marker && present.da && present.metadata
}

/// The place of the last dot in a file name; -1 where it has none.
pub open spec fn final_dot(name: Seq<char>) -> int
    decreases name.len(),
{
    if name.len() == 0 {
        -1
    } else if name.last() == '.' {
        name.len() - 1
    } else {
        final_dot(name.drop_last())
    }
}

/// A file name without its extension: what stands before the last dot, or all of it where that
/// dot is its first character or it has none.
pub open spec fn file_stem(name: Seq<char>) -> Seq<char> {
    if final_dot(name) <= 0 {
        name
    } else {
        name.take(final_dot(name))
    }
}

/// The name of the file in which the contents of `name` are prepared: its stem with the
/// extension `tmp`.
pub open spec fn temp_text(name: Seq<char>) -> Seq<char> {
    file_stem(name) + ".tmp"@
}

/// Whether a text names a file within a directory, and has a stem: a name such as `..x` has none
/// that an extension could be put behind.
pub open spec fn is_file_name(name: Seq<char>) -> bool {
    &&& name.len() > 0
    &&& !name.contains('/')
    &&& name != "."@
    &&& name != ".."@
    &&& final_dot(name) == 1 ==> name[0] != '.'
}

/// The name of the file in which the contents of `name` are prepared.
pub fn temp_name(name: &str) -> (temp: String)
    requires
        is_file_name(name@),
    ensures
        temp@ == temp_text(name@),
{
    let len: usize = name.unicode_len();
    let mut end: usize = len;
    assert(name@.take(len as int) =~= name@);
    while end > 0 && name.get_char(end - 1) != '.'
        invariant
            end <= len,
            len == name@.len(),
            final_dot(name@.take(end as int)) == final_dot(name@),
        decreases end,
    {
        assert(name@.take(end as int).drop_last() =~= name@.take(end - 1));
        end = end - 1;
    }
    if end > 1 {
        assert(final_dot(name@) == end - 1);
        joined(name.substring_char(0, end - 1), ".tmp")
    } else {
        joined(name, ".tmp")
    }
}

/// The text of the path `name` under `root`: `name` itself where it starts at the root of the
/// file system, else the two with one separator between them.
pub open spec fn path_text(root: Seq<char>, name: Seq<char>) -> Seq<char> {
    if name.len() > 0 && name[0] == '/' {
        name
    } else if root.len() == 0 || root.last() == '/' {
        root + name
    } else {
        root + "/"@ + name
    }
}

/// The text of the path `name` under `root`.
pub fn path_join(root: &str, name: &str) -> (path: String)
    ensures
        path@ == path_text(root@, name@),
{
    let name_len: usize = name.unicode_len();
    if name_len > 0 && name.get_char(0) == '/' {
        return name.to_owned();
    }
    let root_len: usize = root.unicode_len();
    if root_len == 0 || root.get_char(root_len - 1) == '/' {
        joined(root, name)
    } else {
        joined(joined(root, "/").as_str(), name)
    }
}

/// A dot stands at the place of the last dot.
pub proof fn lemma_final_dot(name: Seq<char>)
    ensures
        -1 <= final_dot(name) < name.len(),
        final_dot(name) >= 0 ==> name[final_dot(name)] == '.',
    decreases name.len(),
{
    if name.len() > 0 {
        lemma_final_dot(name.drop_last());
    }
}

/// A dictionary is taken for complete where the three files that are looked for are all there, and
/// nowhere else.
pub proof fn law_complete_needs_all_three(present: Presence)
    ensures
        present.complete() ==> present.marker,
        present.complete() ==> present.da,
        present.complete() ==> present.metadata,
        present.marker && present.da && present.metadata ==> present.complete(),
{
}

/// Behind the last dot there is none.
proof fn lemma_no_dot_behind(name: Seq<char>)
    ensures
        forall|i: int| final_dot(name) < i < name.len() ==> #[trigger] name[i] != '.',
    decreases name.len(),
{
    lemma_final_dot(name);
    if name.len() > 0 && name.last() != '.' {
        let rest = name.drop_last();
        lemma_no_dot_behind(rest);
        assert forall|i: int| final_dot(name) < i < name.len() implies #[trigger] name[i] != '.' by {
            if i < rest.len() {
                assert(name[i] == rest[i]);
            }
        }
    }
}

/// The name under which the contents of a file are prepared is the file's own with its extension
/// changed to `tmp`: it ends so, and what stands before is the file's name up to its last dot, or
/// all of it where it has no extension, a dot in front being none.
pub proof fn law_temp_names(name: Seq<char>) -> (stem: Seq<char>)
    requires
        is_file_name(name),
    ensures
        temp_text(name) == stem + ".tmp"@,
        0 < stem.len() <= name.len(),
        forall|i: int| 0 <= i < stem.len() ==> #[trigger] stem[i] == name[i],
        stem.len() < name.len() ==> name[stem.len() as int] == '.',
        stem.len() == name.len() ==> forall|i: int| 0 < i < name.len() ==> #[trigger] name[i] != '.',
        forall|i: int| stem.len() < i < name.len() ==> #[trigger] name[i] != '.',
{
    lemma_final_dot(name);
    lemma_no_dot_behind(name);
    file_stem(name)
}

/// Any text without a separator that does not start with a dot names a file, and so does one that
/// starts with a single dot with something behind it.
pub proof fn law_ordinary_names_name_files(name: Seq<char>)
    requires
        name.len() > 0,
        !name.contains('/'),
        name[0] != '.' || (name.len() > 1 && name[1] != '.'),
    ensures
        is_file_name(name),
{
    reveal_strlit(".");
    reveal_strlit("..");
    lemma_final_dot(name);
}

/// A path that starts at the root of the file system stands for itself. Any other is put behind the
/// root: the result starts with the root, ends with the name, and has one separator between the two
/// where the root does not end in one or is empty, and none else.
pub proof fn law_paths_join(root: Seq<char>, name: Seq<char>)
    ensures
        ({
            let path = path_text(root, name);
            let absolute = name.len() > 0 && name[0] == '/';
            &&& absolute ==> path == name
            &&& !absolute ==> {
                &&& path.len() >= root.len() + name.len()
                &&& path.take(root.len() as int) == root
                &&& path.skip(path.len() - name.len()) == name
                &&& root.len() == 0 ==> path.len() == name.len()
                &&& root.len() > 0 ==> path[path.len() - name.len() - 1] == '/'
                &&& root.len() > 0 && root.last() == '/' ==> path.len() == root.len() + name.len()
                &&& root.len() > 0 && root.last() != '/' ==> path.len() == root.len() + 1 + name.len()
            }
        }),
{
    reveal_strlit("/");
    let path = path_text(root, name);
    if !(name.len() > 0 && name[0] == '/') {
        assert(path.take(root.len() as int) =~= root);
        assert(path.skip(path.len() - name.len()) =~= name);
    }
}

/// No file of a dictionary is named as one in which contents are prepared, and no two are named
/// alike.
pub proof fn law_file_names(i: int, j: int)
    requires
        0 <= i < FILE_COUNT,
        0 <= j < FILE_COUNT,
    ensures
        is_file_name(file_name(i)),
        file_name(i) != temp_text(file_name(j)),
        i != j ==> file_name(i) != file_name(j),
{
    reveal_strlit("dict.da");
    reveal_strlit("dict.vals");
    reveal_strlit("dict.wordsidx");
    reveal_strlit("dict.words");
    reveal_strlit("matrix.mtx");
    reveal_strlit("char_def.bin");
    reveal_strlit("unk.bin");
    reveal_strlit("metadata.json");
    reveal_strlit(".materialized");
    reveal_strlit(".tmp");
    reveal_strlit(".");
    reveal_strlit("..");
    lemma_final_dot(file_name(i));
    assert(file_name(i)[1] != '.');
    assert(temp_text(file_name(j)).last() == 'p');
    assert(file_name(i).last() != 'p');
    assert(i != j ==> file_name(i).len() != file_name(j).len() || file_name(i)[0] != file_name(j)[0]
        || file_name(i).last() != file_name(j).last());
}

} // verus!
