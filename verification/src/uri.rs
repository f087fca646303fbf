//! URIs, taken apart into what a device description needs.

use vstd::prelude::*;

use crate::error::{BdevError, BdevErrorView};
use crate::text::{join, joined, pieces, split, texts};

verus! {

/// The parts of a URI.
pub struct Uri {
    /// the scheme, without the colon
    pub scheme: String,
    /// the path, with its leading '/' where it has one
    pub path: String,
    /// the parameters of the query, decoded, as they follow each other
    pub query: Vec<(String, String)>,
    /// the whole URI
    pub text: String,
}

/// A `Uri` with its texts as sequences of characters.
pub struct UriView {
    pub scheme: Seq<char>,
    pub path: Seq<char>,
    pub query: Seq<(Seq<char>, Seq<char>)>,
    pub text: Seq<char>,
}

/// The characters of the names and values of a list of parameters.
pub open spec fn pair_texts(query: Seq<(String, String)>) -> Seq<(Seq<char>, Seq<char>)> {
    Seq::new(query.len(), |i: int| (query[i].0@, query[i].1@))
}

impl View for Uri {
    type V = UriView;

    open spec fn view(&self) -> UriView {
        UriView {
            scheme: self.scheme@,
            path: self.path@,
            query: pair_texts(self.query@),
            text: self.text@,
        }
    }
}

/// The values of the parameters by name. Where a name occurs more than once,
/// its last value counts.
pub open spec fn parameter_map(query: Seq<(Seq<char>, Seq<char>)>) -> Map<Seq<char>, Seq<char>>
    decreases query.len(),
{
    if query.len() == 0 {
        Map::empty()
    } else {
        parameter_map(query.drop_last()).insert(query.last().0, query.last().1)
    }
}

/// The names of the parameters that are not among `known`, each once, as they
/// first follow each other in the query.
pub open spec fn unknown_names(
    query: Seq<(Seq<char>, Seq<char>)>,
    known: Seq<Seq<char>>,
) -> Seq<Seq<char>>
    decreases query.len(),
{
    if query.len() == 0 {
        Seq::empty()
    } else {
        let before = unknown_names(query.drop_last(), known);
        if known.contains(query.last().0) || before.contains(query.last().0) {
            before
        } else {
            before.push(query.last().0)
        }
    }
}

/// The segments of a path: the pieces between the slashes that follow the
/// leading one. A path that is only a slash has none, nor has one without a
/// leading slash.
pub open spec fn path_segments(path: Seq<char>) -> Seq<Seq<char>> {
    if path.len() >= 2 && path[0] == '/' {
        pieces(path.skip(1), '/')
    } else {
        Seq::empty()
    }
}

/// What `url::Url` makes of a text: its scheme, path, decoded query parameters
/// and serialisation, or the error where the text is no URL.
pub uninterp spec fn parsed_url(input: Seq<char>) -> Result<UriView, url::ParseError>;

/// `url::Url::parse`, and of its result `scheme`, `path`, `query_pairs` and
/// `to_string`. What these return is trusted to depend on the input alone: it
/// is `parsed_url` of the input, which says no more of it than that.
#[verifier::external_body]
fn parse_url(input: &str) -> (parts: Result<Uri, url::ParseError>)
    ensures
        match parts {
            Ok(uri) => parsed_url(input@) == Ok::<_, url::ParseError>(uri@),
            Err(error) => parsed_url(input@) == Err::<UriView, _>(error),
        },
{
    let url = url::Url::parse(input)?;
    Ok(
        Uri {
            scheme: url.scheme().to_string(),
            path: url.path().to_string(),
            query: url.query_pairs().into_owned().collect(),
            text: url.to_string(),
        },
    )
}

impl Uri {
    /// Reads a URI.
    pub fn parse(input: &str) -> (parsed: Result<Uri, BdevError>)
        ensures
            match parsed {
                Ok(uri) => parsed_url(input@) == Ok::<_, url::ParseError>(uri@),
                Err(error) => parsed_url(input@) matches Err(source) && error@ == (
                BdevErrorView::UriParseFailed { source, uri: input@ }),
            },
            parsed matches Ok(uri) ==> {
                &&& parsed_url(input@)->Ok_0.scheme == uri.scheme@
                &&& parsed_url(input@)->Ok_0.path == uri.path@
                &&& parsed_url(input@)->Ok_0.text == uri.text@
                &&& parsed_url(input@)->Ok_0.query.len() == uri.query@.len()
                &&& forall|i: int|
                    0 <= i < uri.query@.len() ==> #[trigger] parsed_url(input@)->Ok_0.query[i] == (
                        uri.query@[i].0@,
                        uri.query@[i].1@,
                    )
            },
            parsed matches Err(error) ==> {
                &&& error matches BdevError::UriParseFailed { source, uri }
                &&& parsed_url(input@) == Err::<UriView, _>(source)
                &&& uri@ == input@
            },
    {
        Uri::from_parts(input, parse_url(input))
    }

    /// Takes what came of reading a text as a URI. The error of reading it is
    /// kept.
    pub fn from_parts(input: &str, parts: Result<Uri, url::ParseError>) -> (parsed: Result<
        Uri,
        BdevError,
    >)
        ensures
            match (parts, parsed) {
                (Ok(given), Ok(uri)) => uri == given,
                (Err(reason), Err(BdevError::UriParseFailed { source, uri })) => source == reason
                    && uri@ == input@,
                _ => false,
            },
    {
        match parts {
            Ok(uri) => Ok(uri),
            Err(source) => Err(BdevError::UriParseFailed { source, uri: input.to_string() }),
        }
    }

    /// The segments of the path.
    pub fn segments(&self) -> (segments: Vec<String>)
        ensures
            texts(segments@) == path_segments(self.path@),
            segments@.len() > 0 <==> self.path@.len() >= 2 && self.path@[0] == '/',
            forall|i: int| 0 <= i < segments@.len() ==> !(#[trigger] segments@[i])@.contains('/'),
            segments@.len() > 0 ==> joined(
                Seq::new(segments@.len(), |i: int| segments@[i]@),
                seq!['/'],
            ) == self.path@.skip(1),
    {
        let len = self.path.as_str().unicode_len();
        if len >= 2 && self.path.as_str().get_char(0) == '/' {
            let rest = self.path.as_str().substring_char(1, len);
            assert(rest@ == self.path@.skip(1));
            split(rest, '/')
        } else {
            let none: Vec<String> = Vec::new();
            assert(texts(none@) == Seq::<Seq<char>>::empty());
            none
        }
    }

    /// The value of a parameter: the last one, where there are several.
    pub fn parameter(&self, name: &str) -> (value: Option<String>)
        ensures
            match value {
                Some(v) => parameter_map(self@.query).contains_key(name@) && parameter_map(
                    self@.query,
                )[name@] == v@,
                None => !parameter_map(self@.query).contains_key(name@),
            },
            value matches Some(v) ==> exists|i: int|
                #![trigger self.query@[i]]
                {
                    &&& 0 <= i < self.query@.len()
                    &&& self.query@[i].0@ == name@
                    &&& self.query@[i].1@ == v@
                    &&& forall|j: int| i < j < self.query@.len() ==> self.query@[j].0@ != name@
                },
            value is None ==> forall|i: int|
                0 <= i < self.query@.len() ==> (#[trigger] self.query@[i]).0@ != name@,
    {
        let wanted = name.to_string();
        let mut value: Option<String> = None;
        let ghost mut last: int = -1;
        let mut i: usize = 0;
        assert(self@.query.take(0) == Seq::<(Seq<char>, Seq<char>)>::empty());
        while i < self.query.len()
            invariant
                i <= self.query.len(),
                wanted@ == name@,
                match value {
                    Some(v) => parameter_map(self@.query.take(i as int)).contains_key(name@)
                        && parameter_map(self@.query.take(i as int))[name@] == v@,
                    None => !parameter_map(self@.query.take(i as int)).contains_key(name@),
                },
                -1 <= last < i,
                match value {
                    Some(v) => last >= 0 && self.query@[last].0@ == name@ && self.query@[last].1@
                        == v@,
                    None => last == -1,
                },
                forall|j: int| last < j < i ==> (#[trigger] self.query@[j]).0@ != name@,
            decreases self.query.len() - i,
        {
            if self.query[i].0 == wanted {
                value = Some(self.query[i].1.clone());
                proof {
                    last = i as int;
                }
            }
            proof {
                let now = self@.query.take(i + 1);
                assert(now.drop_last() == self@.query.take(i as int));
                assert(now.last() == (self.query@[i as int].0@, self.query@[i as int].1@));
            }
            i = i + 1;
        }
        assert(self@.query.take(i as int) == self@.query);
        value
    }
}

/// Whether `list` holds a string with the same characters as `text`.
fn holds(list: &Vec<String>, text: &String) -> (found: bool)
    ensures
        found == texts(list@).contains(text@),
{
    let mut i: usize = 0;
    while i < list.len()
        invariant
            i <= list.len(),
            forall|k: int| 0 <= k < i ==> texts(list@)[k] != text@,
        decreases list.len() - i,
    {
        if list[i] == *text {
            assert(texts(list@)[i as int] == text@);
            return true;
        }
        i = i + 1;
    }
    false
}

/// The error for a URI with parameters that its device does not have.
pub open spec fn unknown_parameters_error(uri: UriView, known: Seq<Seq<char>>) -> BdevErrorView {
    BdevErrorView::InvalidUri {
        uri: uri.text,
        message: "unrecognized parameters: "@ + joined(unknown_names(uri.query, known), ", "@),
    }
}

/// Refuses a URI that has a parameter which is not among `known`.
pub fn reject_unknown_parameters(uri: &Uri, known: &Vec<String>) -> (verdict: Result<(), BdevError>)
    ensures
        match verdict {
            Ok(_) => parameter_map(uri@.query).dom().subset_of(texts(known@).to_set()),
            Err(error) => {
                &&& !parameter_map(uri@.query).dom().subset_of(texts(known@).to_set())
                &&& error@ == unknown_parameters_error(uri@, texts(known@))
            },
        },
        verdict is Ok <==> forall|i: int|
            0 <= i < uri.query@.len() ==> exists|k: int|
                0 <= k < known@.len() && (#[trigger] known@[k])@ == (#[trigger] uri.query@[i]).0@,
        verdict matches Err(error) ==> {
            &&& error matches BdevError::InvalidUri { uri: text, message }
            &&& text@ == uri.text@
            &&& message@ == "unrecognized parameters: "@ + joined(
                unknown_names(
                    Seq::new(uri.query@.len(), |i: int| (uri.query@[i].0@, uri.query@[i].1@)),
                    Seq::new(known@.len(), |k: int| known@[k]@),
                ),
                ", "@,
            )
        },
{
    let mut names: Vec<String> = Vec::new();
    let mut i: usize = 0;
    assert(uri@.query.take(0) == Seq::<(Seq<char>, Seq<char>)>::empty());
    assert(texts(names@) == Seq::<Seq<char>>::empty());
    while i < uri.query.len()
        invariant
            i <= uri.query.len(),
            texts(names@) == unknown_names(uri@.query.take(i as int), texts(known@)),
        decreases uri.query.len() - i,
    {
        let ghost before = texts(names@);
        proof {
            let now = uri@.query.take(i + 1);
            assert(now.drop_last() == uri@.query.take(i as int));
            assert(now.last() == (uri.query@[i as int].0@, uri.query@[i as int].1@));
        }
        if !holds(known, &uri.query[i].0) && !holds(&names, &uri.query[i].0) {
            names.push(uri.query[i].0.clone());
            assert(texts(names@) == before.push(uri.query@[i as int].0@));
        }
        i = i + 1;
    }
    proof {
        assert(uri@.query.take(i as int) == uri@.query);
        law_no_unknown_name_iff(uri@.query, texts(known@));
        lemma_all_known_iff(uri, known);
        assert(uri@.query == Seq::new(
            uri.query@.len(),
            |i: int| (uri.query@[i].0@, uri.query@[i].1@),
        ));
        assert(texts(known@) == Seq::new(known@.len(), |k: int| known@[k]@));
    }
    if names.len() == 0 {
        Ok(())
    } else {
        assert(texts(names@).len() > 0);
        let message = "unrecognized parameters: ".to_string().concat(join(&names, ", ").as_str());
        Err(BdevError::InvalidUri { uri: uri.text.clone(), message })
    }
}

proof fn lemma_all_known_iff(uri: &Uri, known: &Vec<String>)
    ensures
        parameter_map(uri@.query).dom().subset_of(texts(known@).to_set()) <==> forall|i: int|
            0 <= i < uri.query@.len() ==> exists|k: int|
                0 <= k < known@.len() && (#[trigger] known@[k])@ == (#[trigger] uri.query@[i]).0@,
{
    let map = parameter_map(uri@.query);
    let names = texts(known@);
    if map.dom().subset_of(names.to_set()) {
        assert forall|i: int| 0 <= i < uri.query@.len() implies exists|k: int|
            0 <= k < known@.len() && (#[trigger] known@[k])@ == (
            #[trigger] uri.query@[i]).0@ by {
            let name = uri.query@[i].0@;
            assert(uri@.query[i].0 == name);
            law_parameter_iff_named(uri@.query, name);
            assert(map.dom().contains(name));
            assert(names.contains(name));
            let k = choose|k: int| 0 <= k < names.len() && names[k] == name;
            assert(known@[k]@ == name);
        }
    }
    if forall|i: int|
        0 <= i < uri.query@.len() ==> exists|k: int|
            0 <= k < known@.len() && (#[trigger] known@[k])@ == (#[trigger] uri.query@[i]).0@ {
        assert forall|name: Seq<char>| map.dom().contains(name) implies names.to_set().contains(
            name,
        ) by {
            law_parameter_iff_named(uri@.query, name);
            let i = choose|i: int| 0 <= i < uri@.query.len() && (#[trigger] uri@.query[i]).0 == name;
            assert(uri.query@[i].0@ == name);
            let k = choose|k: int|
                0 <= k < known@.len() && (#[trigger] known@[k])@ == uri.query@[i].0@;
            assert(names[k] == name);
        }
    }
}

/// The parts of a URI stand for their characters, and its parameters for theirs,
/// one by one.
pub proof fn law_uri_parts(uri: Uri)
    ensures
        uri@.scheme == uri.scheme@,
        uri@.path == uri.path@,
        uri@.text == uri.text@,
        uri@.query.len() == uri.query@.len(),
        forall|i: int|
            0 <= i < uri.query@.len() ==> #[trigger] uri@.query[i] == (
                uri.query@[i].0@,
                uri.query@[i].1@,
            ),
{
}

/// A further parameter adds its name to the unknown ones, at their end, exactly
/// where it is not known and not among them yet.
pub proof fn law_unknown_names_grow(
    query: Seq<(Seq<char>, Seq<char>)>,
    name: Seq<char>,
    value: Seq<char>,
    known: Seq<Seq<char>>,
)
    ensures
        unknown_names(Seq::empty(), known) == Seq::<Seq<char>>::empty(),
        known.contains(name) || unknown_names(query, known).contains(name) ==> unknown_names(
            query.push((name, value)),
            known,
        ) == unknown_names(query, known),
        !known.contains(name) && !unknown_names(query, known).contains(name) ==> unknown_names(
            query.push((name, value)),
            known,
        ) == unknown_names(query, known).push(name),
{
    assert(query.push((name, value)).drop_last() == query);
}

/// The error for unknown parameters has the text of the URI, and lists the names.
pub proof fn law_unknown_parameters_error(uri: UriView, known: Seq<Seq<char>>)
    ensures
        unknown_parameters_error(uri, known) == (BdevErrorView::InvalidUri {
            uri: uri.text,
            message: "unrecognized parameters: "@ + joined(unknown_names(uri.query, known), ", "@),
        }),
{
}

/// No parameter is unknown exactly where every name that has a value is known.
pub proof fn law_no_unknown_name_iff(
    query: Seq<(Seq<char>, Seq<char>)>,
    known: Seq<Seq<char>>,
)
    ensures
        unknown_names(query, known).len() == 0 <==> parameter_map(query).dom().subset_of(
            known.to_set(),
        ),
    decreases query.len(),
{
    if query.len() > 0 {
        law_no_unknown_name_iff(query.drop_last(), known);
        let before = parameter_map(query.drop_last()).dom();
        let after = parameter_map(query).dom();
        assert(after == before.insert(query.last().0));
        assert(after.contains(query.last().0));
        if after.subset_of(known.to_set()) {
            assert(before.subset_of(known.to_set()));
            assert(known.to_set().contains(query.last().0));
        }
    }
}

/// The unknown names are exactly the names in the query that are not known, and
/// each is listed once.
pub proof fn law_unknown_names_listed_once(
    query: Seq<(Seq<char>, Seq<char>)>,
    known: Seq<Seq<char>>,
    name: Seq<char>,
)
    ensures
        unknown_names(query, known).contains(name) <==> parameter_map(query).contains_key(name)
            && !known.contains(name),
        unknown_names(query, known).no_duplicates(),
    decreases query.len(),
{
    if query.len() > 0 {
        law_unknown_names_listed_once(query.drop_last(), known, name);
        let before = unknown_names(query.drop_last(), known);
        let last = query.last().0;
        let grown = before.push(last);
        assert(grown[before.len() as int] == last);
        assert(grown.contains(name) <==> before.contains(name) || name == last) by {
            if before.contains(name) {
                let i = choose|i: int| 0 <= i < before.len() && before[i] == name;
                assert(grown[i] == name);
            }
        }
    }
}

/// The last value of a parameter counts, whatever came before it.
pub proof fn law_last_value_counts(
    before: Seq<(Seq<char>, Seq<char>)>,
    name: Seq<char>,
    value: Seq<char>,
    after: Seq<(Seq<char>, Seq<char>)>,
)
    requires
        forall|i: int| 0 <= i < after.len() ==> (#[trigger] after[i]).0 != name,
    ensures
        parameter_map(before.push((name, value)) + after).contains_key(name),
        parameter_map(before.push((name, value)) + after)[name] == value,
    decreases after.len(),
{
    let all = before.push((name, value)) + after;
    if after.len() == 0 {
        assert(all.drop_last() == before);
    } else {
        let shorter = after.drop_last();
        assert forall|i: int| 0 <= i < shorter.len() implies (#[trigger] shorter[i]).0 != name by {
            assert(after[i] == shorter[i]);
        }
        law_last_value_counts(before, name, value, shorter);
        assert(all.drop_last() == before.push((name, value)) + shorter);
        assert(all.last() == after[after.len() - 1]);
    }
}

/// A parameter has a value exactly where its name occurs in the query.
pub proof fn law_parameter_iff_named(query: Seq<(Seq<char>, Seq<char>)>, name: Seq<char>)
    ensures
        parameter_map(query).contains_key(name) <==> exists|i: int|
            0 <= i < query.len() && (#[trigger] query[i]).0 == name,
    decreases query.len(),
{
    if query.len() > 0 {
        let shorter = query.drop_last();
        law_parameter_iff_named(shorter, name);
        if parameter_map(query).contains_key(name) {
            if query.last().0 == name {
                assert(query[query.len() - 1].0 == name);
            } else {
                let i = choose|i: int| 0 <= i < shorter.len() && (#[trigger] shorter[i]).0 == name;
                assert(query[i].0 == name);
            }
        }
        if exists|i: int| 0 <= i < query.len() && (#[trigger] query[i]).0 == name {
            let i = choose|i: int| 0 <= i < query.len() && (#[trigger] query[i]).0 == name;
            if i < query.len() - 1 {
                assert(shorter[i].0 == name);
            }
        }
    }
}

/// A path has segments exactly where it goes on after a leading slash; joined
/// by slashes they are the rest of it.
pub proof fn law_segments_of_path(path: Seq<char>)
    ensures
        path_segments(path).len() > 0 <==> path.len() >= 2 && path[0] == '/',
        path_segments(path).len() > 0 ==> joined(path_segments(path), seq!['/']) == path.skip(1),
        forall|i: int|
            0 <= i < path_segments(path).len() ==> !(#[trigger] path_segments(path)[i]).contains('/'),
{
    if path.len() >= 2 && path[0] == '/' {
        crate::text::law_pieces_join_back(path.skip(1), '/');
    }
}

} // verus!
