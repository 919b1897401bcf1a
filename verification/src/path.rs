//! Filesystem paths as text, joined the way a Unix `PathBuf` joins them.
use vstd::prelude::*;

verus! {

/// Joining `component` onto `base`: an absolute component (one that starts
/// with `/`) replaces the base; otherwise a separator is put between the two
/// unless the base is empty or already ends with one.
pub open spec fn path_join(base: Seq<char>, component: Seq<char>) -> Seq<char> {
    if component.len() > 0 && component[0] == '/' {
        component
    } else if base.len() > 0 && base.last() != '/' {
        base + seq!['/'] + component
    } else {
        base + component
    }
}

/// A path held as its text.
pub struct AssetPath {
    path: String,
}

impl View for AssetPath {
    type V = Seq<char>;

    closed spec fn view(&self) -> Seq<char> {
        self.path@
    }
}

impl AssetPath {
    /// A path made of the given text.
    pub fn from_text(text: &str) -> (p: AssetPath)
        ensures
            p@ == text@,
    {
        AssetPath { path: text.to_owned() }
    }

    /// The text of this path.
    pub fn as_text(&self) -> (s: &str)
        ensures
            s@ == self@,
    {
        self.path.as_str()
    }

    /// This path with `component` joined onto it.
    pub fn join(&self, component: &str) -> (p: AssetPath)
        ensures
            p@ == path_join(self@, component@),
    {
        let clen = component.unicode_len();
        if clen > 0 && component.get_char(0) == '/' {
            return AssetPath { path: component.to_owned() };
        }
        let base = self.path.as_str();
        let blen = base.unicode_len();
        let mut text = base.to_owned();
        if blen > 0 && base.get_char(blen - 1) != '/' {
            let sep = "/";
            proof {
                reveal_strlit("/");
            }
            text.append(sep);
        }
        text.append(component);
        AssetPath { path: text }
    }
}

} // verus!
