//! What the model is told of the environment that commands run in.

use crate::text::{same_opt_text, same_text};
use vstd::prelude::*;

verus! {

/// How paths are written.
#[derive(Clone, Copy, Debug, PartialEq, Eq, Structural)]
pub enum PathConvention {
    Posix,
    Windows,
}

/// What the model is told of an environment.
#[derive(Debug)]
pub struct EnvironmentMetadata {
    pub platform_os: Option<String>,
    pub path_convention: Option<PathConvention>,
    pub shell_flavor: Option<String>,
}

/// How paths are written on a platform; where it does not say, `inferred` from a path.
pub open spec fn convention_of(
    platform_os: Option<Seq<char>>,
    inferred: Option<PathConvention>,
) -> Option<PathConvention> {
    if platform_os == Some("windows"@) {
        Some(PathConvention::Windows)
    } else if platform_os == Some("linux"@) || platform_os == Some("macos"@) {
        Some(PathConvention::Posix)
    } else {
        inferred
    }
}

/// The name of a way to write paths.
pub open spec fn convention_name(convention: PathConvention) -> Seq<char> {
    match convention {
        PathConvention::Posix => "posix"@,
        PathConvention::Windows => "windows"@,
    }
}

/// The name of a way to write paths.
pub fn path_convention_name(convention: PathConvention) -> (r: String)
    ensures
        r@ == convention_name(convention),
{
    match convention {
        PathConvention::Posix => "posix".to_owned(),
        PathConvention::Windows => "windows".to_owned(),
    }
}

fn is_text(value: &Option<String>, text: &str) -> (r: bool)
    ensures
        r == (value.deep_view() == Some(text@)),
{
    match value {
        Some(value) => same_text(value.as_str(), text),
        None => false,
    }
}

/// An XML element on a line of its own; nothing where there is no value.
pub open spec fn element(indent: Seq<char>, name: Seq<char>, value: Option<Seq<char>>) -> Seq<
    char,
> {
    match value {
        Some(value) => indent + "<"@ + name + ">"@ + value + "</"@ + name + ">\n"@,
        None => Seq::empty(),
    }
}

/// Adds an XML element on a line of its own. `value` is escaped text.
pub fn push_optional_element(
    rendered: &mut String,
    indent: &str,
    name: &str,
    value: &Option<String>,
)
    ensures
        final(rendered)@ == old(rendered)@ + element(indent@, name@, value.deep_view()),
{
    let ghost before = rendered@;
    match value {
        Some(value) => {
            rendered.append(indent);
            rendered.append("<");
            rendered.append(name);
            rendered.append(">");
            rendered.append(value.as_str());
            rendered.append("</");
            rendered.append(name);
            rendered.append(">\n");
            assert(rendered@ =~= before + element(indent@, name@, Some(value@)));
        },
        None => {
            assert(before + Seq::<char>::empty() =~= before);
        },
    }
}

impl EnvironmentMetadata {
    /// What the model is told of an environment. `inferred` is how paths are written as far as
    /// the working directory tells. Bash on Windows is Git Bash.
    pub fn new(
        inferred: Option<PathConvention>,
        platform_os: Option<String>,
        shell: &Option<String>,
    ) -> (r: Self)
        ensures
            r.platform_os == platform_os,
            r.path_convention == convention_of(platform_os.deep_view(), inferred),
            r.shell_flavor.deep_view() == (if platform_os.deep_view() == Some("windows"@)
                && shell.deep_view() == Some("bash"@) {
                Some("git-bash"@)
            } else {
                None
            }),
    {
        let windows = is_text(&platform_os, "windows");
        let path_convention = if windows {
            Some(PathConvention::Windows)
        } else if is_text(&platform_os, "linux") || is_text(&platform_os, "macos") {
            Some(PathConvention::Posix)
        } else {
            inferred
        };
        let shell_flavor = if windows && is_text(shell, "bash") {
            Some("git-bash".to_owned())
        } else {
            None
        };
        EnvironmentMetadata { platform_os, path_convention, shell_flavor }
    }

    /// The texts of the elements, before they are escaped.
    pub fn element_texts(&self) -> (r: (Option<String>, Option<String>, Option<String>))
        ensures
            r.0.deep_view() == self.platform_os.deep_view(),
            r.1.deep_view() == match self.path_convention {
                Some(convention) => Some(convention_name(convention)),
                None => None,
            },
            r.2.deep_view() == self.shell_flavor.deep_view(),
    {
        let convention = match self.path_convention {
            Some(convention) => Some(path_convention_name(convention)),
            None => None,
        };
        (self.platform_os.clone(), convention, self.shell_flavor.clone())
    }

    /// Whether a difference to an earlier state is to be told.
    pub fn has_same_diff_value(&self, previous: &Self) -> (r: bool)
        ensures
            r == (self.platform_os.deep_view() == previous.platform_os.deep_view()
                && self.path_convention == previous.path_convention
                && self.shell_flavor.deep_view() == previous.shell_flavor.deep_view()),
    {
        let same_convention = match (self.path_convention, previous.path_convention) {
            (Some(a), Some(b)) => a == b,
            (None, None) => true,
            _ => false,
        };
        same_opt_text(&self.platform_os, &previous.platform_os) && same_convention
            && same_opt_text(&self.shell_flavor, &previous.shell_flavor)
    }
}

/// Adds the elements that describe an environment. `texts` holds their texts, escaped.
pub fn push_xml_elements(
    rendered: &mut String,
    indent: &str,
    texts: &(Option<String>, Option<String>, Option<String>),
)
    ensures
        final(rendered)@ == old(rendered)@ + element(
            indent@,
            "platform_os"@,
            texts.0.deep_view(),
        ) + element(indent@, "path_convention"@, texts.1.deep_view()) + element(
            indent@,
            "shell_flavor"@,
            texts.2.deep_view(),
        ),
{
    push_optional_element(rendered, indent, "platform_os", &texts.0);
    push_optional_element(rendered, indent, "path_convention", &texts.1);
    push_optional_element(rendered, indent, "shell_flavor", &texts.2);
}

/// Windows writes paths in its own way, Linux and macOS as POSIX says, whatever a path suggests;
/// elsewhere, and where nothing is known, the path decides.
pub proof fn platforms_decide_how_paths_are_written(
    platform_os: Option<Seq<char>>,
    a: Option<PathConvention>,
    b: Option<PathConvention>,
)
    ensures
        convention_of(Some("windows"@), a) == Some(PathConvention::Windows),
        convention_of(Some("linux"@), a) == Some(PathConvention::Posix),
        convention_of(Some("macos"@), a) == Some(PathConvention::Posix),
        convention_of(None, a) == a,
        convention_of(platform_os, a) != convention_of(platform_os, b) ==> convention_of(
            platform_os,
            a,
        ) == a && convention_of(platform_os, b) == b,
        platform_os != Some("windows"@) && platform_os != Some("linux"@) && platform_os != Some(
            "macos"@,
        ) ==> convention_of(platform_os, a) == a,
        convention_name(PathConvention::Posix) != convention_name(PathConvention::Windows),
{
    reveal_strlit("windows");
    reveal_strlit("linux");
    reveal_strlit("macos");
    reveal_strlit("posix");
    assert("windows"@.len() == 7);
    assert("linux"@.len() == 5);
    assert("linux"@[0] == 'l');
    assert("macos"@[0] == 'm');
    assert("posix"@.len() == 5);
}

/// An element holds its value between two tags of its name, and ends its line. One without a value
/// is left out.
pub proof fn elements_hold_their_values(
    indent: Seq<char>,
    name: Seq<char>,
    value: Seq<char>,
    other: Seq<char>,
)
    ensures
        element(indent, name, None).len() == 0,
        ({
            let text = element(indent, name, Some(value));
            let at = (indent.len() + name.len() + 2) as int;
            &&& text.take(indent.len() as int) == indent
            &&& text[indent.len() as int] == '<'
            &&& text.subrange(indent.len() + 1int, at - 1) == name
            &&& text[at - 1] == '>'
            &&& text.subrange(at, at + value.len()) == value
            &&& text.subrange(at + value.len(), at + value.len() + 2) == seq!['<', '/']
            &&& text.subrange(at + value.len() + 2, text.len() - 2) == name
            &&& text.subrange(text.len() - 2, text.len() as int) == seq!['>', '\n']
        }),
        element(indent, name, Some(value)) == element(indent, name, Some(other)) ==> value == other,
{
    reveal_strlit("<");
    reveal_strlit(">");
    reveal_strlit("</");
    reveal_strlit(">\n");
    lemma_element(indent, name, value);
    lemma_element(indent, name, other);
}

proof fn lemma_element(indent: Seq<char>, name: Seq<char>, value: Seq<char>)
    ensures
        ({
            let text = element(indent, name, Some(value));
            let at = (indent.len() + name.len() + 2) as int;
            &&& text.len() == at + value.len() + name.len() + 4
            &&& text.take(indent.len() as int) == indent
            &&& text[indent.len() as int] == '<'
            &&& text.subrange(indent.len() + 1int, at - 1) == name
            &&& text[at - 1] == '>'
            &&& text.subrange(at, at + value.len()) == value
            &&& text.subrange(at + value.len(), at + value.len() + 2) == seq!['<', '/']
            &&& text.subrange(at + value.len() + 2, text.len() - 2) == name
            &&& text.subrange(text.len() - 2, text.len() as int) == seq!['>', '\n']
        }),
{
    reveal_strlit("<");
    reveal_strlit(">");
    reveal_strlit("</");
    reveal_strlit(">\n");
    let text = element(indent, name, Some(value));
    let at = (indent.len() + name.len() + 2) as int;
    assert(text.take(indent.len() as int) =~= indent);
    assert(text.subrange(indent.len() + 1int, at - 1) =~= name);
    assert(text.subrange(at, at + value.len()) =~= value);
    assert(text.subrange(at + value.len(), at + value.len() + 2) =~= seq!['<', '/']);
    assert(text.subrange(at + value.len() + 2, text.len() - 2) =~= name);
    assert(text.subrange(text.len() - 2, text.len() as int) =~= seq!['>', '\n']);
}

} // verus!
