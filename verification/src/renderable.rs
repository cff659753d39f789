//! The rendering capability: a value that can give its string form.

use crate::errors::Error;
use crate::text::{
    decimal, join_all, join_strings, push_char, render_decimal, render_signed, signed_decimal,
    views_of,
};
use vstd::prelude::*;
use vstd::string::*;

verus! {

/// A value that can be rendered to a string, with no way to fail.
pub trait Renderable {
    /// The string form of the value. An implementation says what it is; of
    /// one that does not, nothing is known.
    open spec fn rendered(&self) -> Seq<char> {
        arbitrary()
    }

    /// Renders the value to a string.
    fn render(&self) -> (s: String)
        ensures
            s@ == self.rendered(),
    ;
}

/// A value whose rendering may fail.
pub trait TryRenderable {
    /// Attempts to render the value.
    fn try_render(&self) -> Result<String, Error>;
}

impl Renderable for String {
    open spec fn rendered(&self) -> Seq<char> {
        self@
    }

    fn render(&self) -> (s: String) {
        self.clone()
    }
}

impl Renderable for &String {
    open spec fn rendered(&self) -> Seq<char> {
        self@
    }

    fn render(&self) -> (s: String) {
        (*self).clone()
    }
}

impl Renderable for &str {
    open spec fn rendered(&self) -> Seq<char> {
        self@
    }

    fn render(&self) -> (s: String) {
        String::from_str(*self)
    }
}

impl Renderable for bool {
    open spec fn rendered(&self) -> Seq<char> {
        if *self {
            "true"@
        } else {
            "false"@
        }
    }

    fn render(&self) -> (s: String) {
        if *self {
            String::from_str("true")
        } else {
            String::from_str("false")
        }
    }
}

impl Renderable for u8 {
    open spec fn rendered(&self) -> Seq<char> {
        decimal(*self as nat)
    }

    fn render(&self) -> (s: String) {
        render_decimal(*self as u64)
    }
}

impl Renderable for u16 {
    open spec fn rendered(&self) -> Seq<char> {
        decimal(*self as nat)
    }

    fn render(&self) -> (s: String) {
        render_decimal(*self as u64)
    }
}

impl Renderable for u32 {
    open spec fn rendered(&self) -> Seq<char> {
        decimal(*self as nat)
    }

    fn render(&self) -> (s: String) {
        render_decimal(*self as u64)
    }
}

impl Renderable for u64 {
    open spec fn rendered(&self) -> Seq<char> {
        decimal(*self as nat)
    }

    fn render(&self) -> (s: String) {
        render_decimal(*self as u64)
    }
}

impl Renderable for usize {
    open spec fn rendered(&self) -> Seq<char> {
        decimal(*self as nat)
    }

    fn render(&self) -> (s: String) {
        render_decimal(*self as u64)
    }
}

impl Renderable for i8 {
    open spec fn rendered(&self) -> Seq<char> {
        signed_decimal(*self as int)
    }

    fn render(&self) -> (s: String) {
        render_signed(*self as i64)
    }
}

impl Renderable for i16 {
    open spec fn rendered(&self) -> Seq<char> {
        signed_decimal(*self as int)
    }

    fn render(&self) -> (s: String) {
        render_signed(*self as i64)
    }
}

impl Renderable for i32 {
    open spec fn rendered(&self) -> Seq<char> {
        signed_decimal(*self as int)
    }

    fn render(&self) -> (s: String) {
        render_signed(*self as i64)
    }
}

impl Renderable for i64 {
    open spec fn rendered(&self) -> Seq<char> {
        signed_decimal(*self as int)
    }

    fn render(&self) -> (s: String) {
        render_signed(*self as i64)
    }
}

impl Renderable for isize {
    open spec fn rendered(&self) -> Seq<char> {
        signed_decimal(*self as int)
    }

    fn render(&self) -> (s: String) {
        render_signed(*self as i64)
    }
}

impl Renderable for char {
    open spec fn rendered(&self) -> Seq<char> {
        seq![*self]
    }

    fn render(&self) -> (s: String) {
        let mut s = String::new();
        push_char(&mut s, *self);
        assert(s@ =~= seq![*self]);
        s
    }
}

impl Renderable for () {
    open spec fn rendered(&self) -> Seq<char> {
        Seq::empty()
    }

    fn render(&self) -> (s: String) {
        String::new()
    }
}

impl<T: Renderable> Renderable for Option<T> {
    open spec fn rendered(&self) -> Seq<char> {
        match self {
            Some(value) => value.rendered(),
            None => Seq::empty(),
        }
    }

    fn render(&self) -> (s: String) {
        match self {
            Some(value) => value.render(),
            None => String::new(),
        }
    }
}

/// The string forms of the elements of `items`, in order.
pub open spec fn rendered_items<T: Renderable>(items: Seq<T>) -> Seq<Seq<char>> {
    items.map_values(|item: T| item.rendered())
}

impl<T: Renderable> Renderable for Vec<T> {
    open spec fn rendered(&self) -> Seq<char> {
        join_all(rendered_items(self@), seq!['\n'])
    }

    fn render(&self) -> (s: String) {
        let items: &[T] = self.as_slice();
        items.render()
    }
}

impl<T: Renderable> Renderable for &[T] {
    open spec fn rendered(&self) -> Seq<char> {
        join_all(rendered_items(self@), seq!['\n'])
    }

    fn render(&self) -> (s: String) {
        let mut pieces: Vec<String> = Vec::new();
        let mut i: usize = 0;
        while i < self.len()
            invariant
                i <= self.len(),
                views_of(pieces@) == rendered_items(self@.take(i as int)),
            decreases self.len() - i,
        {
            let ghost before = views_of(pieces@);
            let piece = self[i].render();
            pieces.push(piece);
            i += 1;
            assert(views_of(pieces@) =~= before.push(piece@));
            assert(rendered_items(self@.take(i as int)) =~= before.push(piece@));
        }
        assert(self@.take(self.len() as int) =~= self@);
        proof {
            reveal_strlit("\n");
            assert("\n"@ =~= seq!['\n']);
        }
        join_strings(&pieces, "\n")
    }
}

/// An ordered list of children of any renderable types.
pub type Children = Vec<Box<dyn Renderable>>;

/// The string forms of the values behind the handles of `items`, in order.
pub open spec fn rendered_handles(items: Seq<Box<dyn Renderable>>) -> Seq<Seq<char>> {
    items.map_values(|item: Box<dyn Renderable>| item.rendered())
}

impl Renderable for Vec<Box<dyn Renderable>> {
    open spec fn rendered(&self) -> Seq<char> {
        join_all(rendered_handles(self@), seq!['\n'])
    }

    fn render(&self) -> (s: String) {
        let mut pieces: Vec<String> = Vec::new();
        let mut i: usize = 0;
        while i < self.len()
            invariant
                i <= self.len(),
                views_of(pieces@) == rendered_handles(self@.take(i as int)),
            decreases self.len() - i,
        {
            let ghost before = views_of(pieces@);
            let piece = self[i].render();
            pieces.push(piece);
            i += 1;
            assert(views_of(pieces@) =~= before.push(piece@));
            assert(rendered_handles(self@.take(i as int)) =~= before.push(piece@));
        }
        assert(self@.take(self.len() as int) =~= self@);
        proof {
            reveal_strlit("\n");
            assert("\n"@ =~= seq!['\n']);
        }
        join_strings(&pieces, "\n")
    }
}

} // verus!
