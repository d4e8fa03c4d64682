//! Package specifiers: the `[@]author/name` strings that identify a package.

use crate::error::InstallError;
use vstd::prelude::*;

verus! {

/// The mathematical value of a specifier: its two components.
pub struct SpecifierView {
    pub author: Seq<char>,
    pub name: Seq<char>,
}

/// A component of a specifier is not empty and holds neither `/` nor `@`.
pub open spec fn is_component(s: Seq<char>) -> bool {
    &&& s.len() > 0
    &&& forall|i: int| 0 <= i < s.len() ==> s[i] != '/' && s[i] != '@'
}

/// The text without the one `@` that may lead it.
pub open spec fn without_marker(text: Seq<char>) -> Seq<char> {
    if text.len() > 0 && text[0] == '@' {
        text.skip(1)
    } else {
        text
    }
}

/// The two components with the separator between them: `author/name`.
pub open spec fn joined(author: Seq<char>, name: Seq<char>) -> Seq<char> {
    author + seq!['/'] + name
}

/// `text` is a specifier and `v` is what it says: after the optional marker
/// come the author, one separator and the name.
pub open spec fn denotes(text: Seq<char>, v: SpecifierView) -> bool {
    &&& is_component(v.author)
    &&& is_component(v.name)
    &&& without_marker(text) == joined(v.author, v.name)
}

/// How often `c` occurs in `s`.
pub open spec fn occurrences(s: Seq<char>, c: char) -> nat
    decreases s.len(),
{
    if s.len() == 0 {
        0
    } else {
        occurrences(s.drop_last(), c) + if s.last() == c { 1nat } else { 0nat }
    }
}

/// An `author/name` pair that identifies a package.
///
/// A value of this type always holds two well-formed components; the only way
/// to make one is [`PackageSpecifier::parse`].
#[derive(Debug, PartialEq, Eq)]
pub struct PackageSpecifier {
    author: String,
    name: String,
}

impl View for PackageSpecifier {
    type V = SpecifierView;

    closed spec fn view(&self) -> SpecifierView {
        SpecifierView { author: self.author@, name: self.name@ }
    }
}

impl Clone for PackageSpecifier {
    fn clone(&self) -> (copy: PackageSpecifier)
        ensures
            copy@ == self@,
    {
        proof {
            use_type_invariant(self);
        }
        PackageSpecifier { author: self.author.clone(), name: self.name.clone() }
    }
}

impl PackageSpecifier {
    #[verifier::type_invariant]
    spec fn well_formed(&self) -> bool {
        is_component(self.author@) && is_component(self.name@)
    }

    /// Reads a specifier of the form `[@]author/name`.
    ///
    /// Succeeds exactly on the texts that denote a specifier, and then returns
    /// the one they denote; every other text is an `InvalidSpecifier`.
    pub fn parse(text: &str) -> (result: Result<PackageSpecifier, InstallError>)
        ensures
            match result {
                Ok(specifier) => denotes(text@, specifier@),
                Err(error) => error == InstallError::InvalidSpecifier && forall|v: SpecifierView|
                    !denotes(text@, v),
            },
    {
        let len = text.unicode_len();
        let start: usize = if len > 0 && text.get_char(0) == '@' {
            1
        } else {
            0
        };
        let ghost body = without_marker(text@);
        assert(body.len() == len - start);
        assert(forall|k: int| 0 <= k < body.len() ==> body[k] == text@[k + start]);
        let mut slash: Option<usize> = None;
        let mut i: usize = start;
        while i < len
            invariant
                start <= i <= len,
                len == text@.len(),
                body == without_marker(text@),
                body.len() == len - start,
                forall|k: int| 0 <= k < body.len() ==> body[k] == text@[k + start],
                forall|k: int| start <= k < i ==> text@[k] != '@',
                slash is None ==> forall|k: int| start <= k < i ==> text@[k] != '/',
                slash matches Some(p) ==> start <= p < i && text@[p as int] == '/' && forall|
                    k: int,
                | start <= k < i && k != p ==> text@[k] != '/',
            decreases len - i,
        {
            let c = text.get_char(i);
            if c == '@' {
                proof {
                    lemma_no_marker_inside(body, i - start);
                }
                return Err(InstallError::InvalidSpecifier);
            }
            if c == '/' {
                match slash {
                    Some(p) => {
                        proof {
                            lemma_one_separator(body, p - start, i - start);
                        }
                        return Err(InstallError::InvalidSpecifier);
                    },
                    None => {
                        slash = Some(i);
                    },
                }
            }
            i += 1;
        }
        match slash {
            None => {
                proof {
                    lemma_needs_separator(body);
                }
                Err(InstallError::InvalidSpecifier)
            },
            Some(p) => {
                if p == start || p + 1 == len {
                    proof {
                        lemma_components_not_empty(body, p - start);
                    }
                    Err(InstallError::InvalidSpecifier)
                } else {
                    let author = text.substring_char(start, p).to_owned();
                    let name = text.substring_char(p + 1, len).to_owned();
                    assert(body =~= joined(author@, name@));
                    Ok(PackageSpecifier { author, name })
                }
            },
        }
    }

    /// The author component.
    pub fn author(&self) -> (author: &str)
        ensures
            author@ == self@.author,
            is_component(author@),
    {
        proof {
            use_type_invariant(self);
        }
        self.author.as_str()
    }

    /// The name component.
    pub fn name(&self) -> (name: &str)
        ensures
            name@ == self@.name,
            is_component(name@),
    {
        proof {
            use_type_invariant(self);
        }
        self.name.as_str()
    }

    /// The name under which the package is shown to the user: `@author/name`.
    pub fn display_name(&self) -> (shown: String)
        ensures
            shown@ == seq!['@'] + joined(self@.author, self@.name),
            denotes(shown@, self@),
    {
        proof {
            use_type_invariant(self);
            lemma_joined_denotes(self@.author, self@.name);
            reveal_strlit("@");
            reveal_strlit("/");
            assert("@"@ =~= seq!['@']);
            assert("/"@ =~= seq!['/']);
        }
        let mut shown = "@".to_owned();
        shown.append(self.author.as_str());
        shown.append("/");
        shown.append(self.name.as_str());
        assert(shown@ =~= seq!['@'] + joined(self@.author, self@.name));
        shown
    }

    /// The key under which the manifest records the package: `author/name`.
    pub fn dependency_key(&self) -> (key: String)
        ensures
            key@ == joined(self@.author, self@.name),
            denotes(key@, self@),
    {
        proof {
            use_type_invariant(self);
            lemma_joined_denotes(self@.author, self@.name);
        }
        let mut key = self.author.clone();
        key.append("/");
        key.append(self.name.as_str());
        proof {
            reveal_strlit("/");
            assert("/"@ =~= seq!['/']);
        }
        key
    }
}

/// A text with `@` after the optional marker denotes nothing.
proof fn lemma_no_marker_inside(body: Seq<char>, at: int)
    requires
        0 <= at < body.len(),
        body[at] == '@',
    ensures
        forall|author: Seq<char>, name: Seq<char>|
            is_component(author) && is_component(name) ==> body != #[trigger] joined(author, name),
{
    assert forall|author: Seq<char>, name: Seq<char>|
        is_component(author) && is_component(name) implies body != #[trigger] joined(
        author,
        name,
    ) by {
        let j = joined(author, name);
        if body == j {
            if at < author.len() {
                assert(j[at] == author[at]);
            } else if at == author.len() {
                assert(j[at] == '/');
            } else {
                assert(j[at] == name[at - author.len() - 1]);
            }
        }
    }
}

/// A text with two separators denotes nothing.
proof fn lemma_one_separator(body: Seq<char>, first: int, second: int)
    requires
        0 <= first < second < body.len(),
        body[first] == '/',
        body[second] == '/',
    ensures
        forall|author: Seq<char>, name: Seq<char>|
            is_component(author) && is_component(name) ==> body != #[trigger] joined(author, name),
{
    assert forall|author: Seq<char>, name: Seq<char>|
        is_component(author) && is_component(name) implies body != #[trigger] joined(
        author,
        name,
    ) by {
        let j = joined(author, name);
        if body == j {
            lemma_separator_position(author, name, first);
            lemma_separator_position(author, name, second);
        }
    }
}

/// In `author/name` the separator stands right after the author and nowhere else.
proof fn lemma_separator_position(author: Seq<char>, name: Seq<char>, at: int)
    requires
        is_component(author),
        is_component(name),
        0 <= at < joined(author, name).len(),
    ensures
        joined(author, name)[at] == '/' <==> at == author.len(),
{
    let j = joined(author, name);
    if at < author.len() {
        assert(j[at] == author[at]);
    } else if at == author.len() {
        assert(j[at] == '/');
    } else {
        assert(j[at] == name[at - author.len() - 1]);
    }
}

/// A text without a separator denotes nothing.
proof fn lemma_needs_separator(body: Seq<char>)
    requires
        forall|k: int| 0 <= k < body.len() ==> body[k] != '/',
    ensures
        forall|author: Seq<char>, name: Seq<char>|
            is_component(author) && is_component(name) ==> body != #[trigger] joined(author, name),
{
    assert forall|author: Seq<char>, name: Seq<char>|
        is_component(author) && is_component(name) implies body != #[trigger] joined(
        author,
        name,
    ) by {
        let j = joined(author, name);
        if body == j {
            assert(j[author.len() as int] == '/');
        }
    }
}

/// A text whose separator comes first or last denotes nothing.
proof fn lemma_components_not_empty(body: Seq<char>, at: int)
    requires
        0 <= at < body.len(),
        body[at] == '/',
        at == 0 || at + 1 == body.len(),
    ensures
        forall|author: Seq<char>, name: Seq<char>|
            is_component(author) && is_component(name) ==> body != #[trigger] joined(author, name),
{
    assert forall|author: Seq<char>, name: Seq<char>|
        is_component(author) && is_component(name) implies body != #[trigger] joined(
        author,
        name,
    ) by {
        if body == joined(author, name) {
            lemma_separator_position(author, name, at);
        }
    }
}

/// Law: `author/name` and `@author/name` both denote the specifier made of
/// `author` and `name`, whatever the two components are.
pub proof fn lemma_joined_denotes(author: Seq<char>, name: Seq<char>)
    requires
        is_component(author),
        is_component(name),
    ensures
        denotes(joined(author, name), SpecifierView { author, name }),
        denotes(seq!['@'] + joined(author, name), SpecifierView { author, name }),
{
    let plain = joined(author, name);
    assert(plain[0] == author[0]);
    assert(without_marker(plain) == plain);
    let marked = seq!['@'] + plain;
    assert(marked[0] == '@');
    assert(marked.skip(1) =~= plain);
}

/// Occurrences add up over concatenation.
proof fn lemma_occurrences_concat(a: Seq<char>, b: Seq<char>, c: char)
    ensures
        occurrences(a + b, c) == occurrences(a, c) + occurrences(b, c),
    decreases b.len(),
{
    if b.len() == 0 {
        assert(a + b =~= a);
    } else {
        assert((a + b).drop_last() =~= a + b.drop_last());
        lemma_occurrences_concat(a, b.drop_last(), c);
    }
}

/// A character that stands nowhere in `s` occurs zero times.
proof fn lemma_occurrences_absent(s: Seq<char>, c: char)
    requires
        forall|i: int| 0 <= i < s.len() ==> s[i] != c,
    ensures
        occurrences(s, c) == 0,
    decreases s.len(),
{
    if s.len() > 0 {
        lemma_occurrences_absent(s.drop_last(), c);
    }
}

/// Law: a text that denotes a specifier holds, after the optional marker,
/// exactly one separator and no further marker. A text with no separator, or
/// with more than one, therefore denotes nothing.
pub proof fn lemma_denotes_one_separator(text: Seq<char>, v: SpecifierView)
    requires
        denotes(text, v),
    ensures
        occurrences(without_marker(text), '/') == 1,
        occurrences(without_marker(text), '@') == 0,
{
    let sep = seq!['/'];
    assert(sep.drop_last() =~= Seq::<char>::empty());
    assert(occurrences(sep, '/') == 1) by {
        reveal_with_fuel(occurrences, 2);
    }
    assert(occurrences(sep, '@') == 0) by {
        reveal_with_fuel(occurrences, 2);
    }
    lemma_occurrences_absent(v.author, '/');
    lemma_occurrences_absent(v.author, '@');
    lemma_occurrences_absent(v.name, '/');
    lemma_occurrences_absent(v.name, '@');
    lemma_occurrences_concat(v.author, sep, '/');
    lemma_occurrences_concat(v.author, sep, '@');
    lemma_occurrences_concat(v.author + sep, v.name, '/');
    lemma_occurrences_concat(v.author + sep, v.name, '@');
}

/// Law: a text denotes at most one specifier.
pub proof fn lemma_denotes_unique(text: Seq<char>, a: SpecifierView, b: SpecifierView)
    requires
        denotes(text, a),
        denotes(text, b),
    ensures
        a == b,
{
    let body = without_marker(text);
    lemma_separator_position(a.author, a.name, a.author.len() as int);
    lemma_separator_position(b.author, b.name, a.author.len() as int);
    assert(a.author.len() == b.author.len());
    assert(a.author =~= body.subrange(0, a.author.len() as int));
    assert(b.author =~= body.subrange(0, a.author.len() as int));
    assert(a.name =~= body.subrange(a.author.len() + 1 as int, body.len() as int));
    assert(b.name =~= body.subrange(a.author.len() + 1 as int, body.len() as int));
}

} // verus!
