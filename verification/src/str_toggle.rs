//! Conditional CSS class concatenation for `&str` and `String`.

use vstd::prelude::*;
use vstd::string::StringExecFns;

verus! {

/// Append a class name, unconditionally or under a caller-supplied
/// condition. The result is always a fresh `String`; a space separates the
/// appended class.
pub trait StrToggler {
    /// The characters of the value the class is appended to.
    spec fn text(self) -> Seq<char>;

    /// `self` with `" "` and `class` appended when `when` holds, `self`
    /// unchanged otherwise.
    fn toggle_class(self, class: &str, when: bool) -> (r: String)
        ensures
            r@ == if when {
                self.text() + " "@ + class@
            } else {
                self.text()
            },
    ;

    /// `self` with `" "` and `class` appended.
    fn push_class(self, class: &str) -> (r: String)
        ensures
            r@ == self.text() + " "@ + class@,
    ;
}

impl StrToggler for &str {
    open spec fn text(self) -> Seq<char> {
        self@
    }

    fn toggle_class(self, class: &str, when: bool) -> (r: String) {
        if when {
            self.push_class(class)
        } else {
            self.to_owned()
        }
    }

    fn push_class(self, class: &str) -> (r: String) {
        let mut s = self.to_owned();
        s.append(" ");
        s.append(class);
        s
    }
}

impl StrToggler for String {
    open spec fn text(self) -> Seq<char> {
        self@
    }

    fn toggle_class(self, class: &str, when: bool) -> (r: String) {
        if when {
            self.push_class(class)
        } else {
            self
        }
    }

    fn push_class(self, class: &str) -> (r: String) {
        let mut s = self;
        s.append(" ");
        s.append(class);
        s
    }
}

} // verus!
