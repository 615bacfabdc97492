use vstd::prelude::*;

use lindera_dictionary::error::LinderaError;

use crate::failure::{plain_failure, shown_as, Failure, FailureText};
use crate::layout::{dict_is_ready, path_join, path_text, Presence};

verus! {

/// What lindera is to load: the directory with this path, its files mapped into memory or not.
pub struct MapRequest {
    pub dir: String,
    pub use_mmap: bool,
}

/// What the load of a dictionary that is not complete on disk is answered with.
pub open spec fn not_materialized(root: Seq<char>, lang: Seq<char>) -> FailureText {
    plain_failure(
        "lindera dict for "@ + lang + " not materialized; expected at "@ + path_text(root, lang),
    )
}

/// A [`MapRequest`] as texts.
#[verifier::ext_equal]
pub struct MapRequestText {
    pub dir: Seq<char>,
    pub use_mmap: bool,
}

impl View for MapRequest {
    type V = MapRequestText;

    open spec fn view(&self) -> MapRequestText {
        MapRequestText { dir: self.dir@, use_mmap: self.use_mmap }
    }
}

/// What the load of a dictionary is answered with: a request to map its directory where it is
/// complete on disk, else the refusal.
pub open spec fn load_answer(root: Seq<char>, lang: Seq<char>, present: Presence) -> Result<
    MapRequestText,
    FailureText,
> {
    if present.complete() {
        Ok(MapRequestText { dir: path_text(root, lang), use_mmap: true })
    } else {
        Err(not_materialized(root, lang))
    }
}

/// Says what to load for the dictionary `lang` under the root with the path `root`, given which of
/// its files are present. A dictionary that is not complete is not loaded.
pub fn load_mmap(root: &str, lang: &str, present: Presence) -> (r: Result<MapRequest, Failure>)
    ensures
        match load_answer(root@, lang@, present) {
            Ok(request) => r matches Ok(given) && given@ == request,
            Err(text) => r matches Err(f) && f@ == text,
        },
        r is Ok <==> present.marker && present.da && present.metadata,
        r matches Ok(request) ==> request.use_mmap && request.dir@ == path_text(root@, lang@),
        r matches Err(f) ==> f.cause is None && f.context@ == "lindera dict for "@ + lang@
            + " not materialized; expected at "@ + path_text(root@, lang@),
{
    let dir = path_join(root, lang);
    if !dict_is_ready(present) {
        let mut context = "lindera dict for ".to_owned();
        context.append(lang);
        context.append(" not materialized; expected at ");
        context.append(dir.as_str());
        return Err(Failure::plain(context));
    }
    Ok(MapRequest { dir, use_mmap: true })
}

/// What the refusal of a load from disk is called.
pub open spec fn map_refused(dir: Seq<char>, error: Seq<char>) -> FailureText {
    plain_failure("load_from_path_with_options("@ + dir + "): "@ + error)
}

/// What the refusal of a load from disk with this error is called.
pub fn map_refusal(dir: &str, error: &LinderaError) -> (f: Failure)
    ensures
        exists|text: Seq<char>| shown_as(*error, text) && f@ == map_refused(dir@, text),
        exists|s: String| #[trigger]
            vstd::string::to_string_from_display_ensures(error, s) && f.context@
                == "load_from_path_with_options("@ + dir@ + "): "@ + s@,
        f.cause is None,
{
    let text = error.to_string();
    let mut context = "load_from_path_with_options(".to_owned();
    context.append(dir);
    context.append("): ");
    context.append(text.as_str());
    assert(shown_as(*error, text@));
    Failure::plain(context)
}

/// A dictionary is mapped where its marker, its double array and its metadata are all present, and
/// is refused wherever one of them is missing. What is mapped is its own directory, and it is
/// mapped into memory, not read.
pub proof fn law_only_complete_dictionaries_are_mapped(
    root: Seq<char>,
    lang: Seq<char>,
    present: Presence,
)
    ensures
        load_answer(root, lang, present) is Ok <==> present.marker && present.da
            && present.metadata,
        !present.marker ==> load_answer(root, lang, present) is Err,
        !present.da ==> load_answer(root, lang, present) is Err,
        !present.metadata ==> load_answer(root, lang, present) is Err,
        load_answer(root, lang, present) matches Ok(request) ==> request.use_mmap && request.dir
            == path_text(root, lang),
        load_answer(root, lang, present) matches Err(f) ==> f.cause is None && f.context
            == "lindera dict for "@ + lang + " not materialized; expected at "@ + path_text(
            root,
            lang,
        ),
{
}

/// The refusal of a load from disk names the directory and carries the error's text, and so tells
/// errors with different texts apart.
pub proof fn law_map_refusals_are_told_apart(dir: Seq<char>, a: Seq<char>, b: Seq<char>)
    ensures
        map_refused(dir, a).context == "load_from_path_with_options("@ + dir + "): "@ + a,
        map_refused(dir, a).cause is None,
        a != b ==> map_refused(dir, a) != map_refused(dir, b),
{
    let head = "load_from_path_with_options("@ + dir + "): "@;
    if map_refused(dir, a) == map_refused(dir, b) {
        assert((head + a).skip(head.len() as int) =~= a);
        assert((head + b).skip(head.len() as int) =~= b);
    }
}

} // verus!
