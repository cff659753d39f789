//! The accumulator: an ordered, growable buffer of rendered fragments.

use crate::renderable::{rendered_items, Renderable};
use crate::text::{concat_all, concat_strings, join_all, join_strings, views_of};
use vstd::prelude::*;

verus! {

/// Collects the string forms of renderable items, in the order in which they
/// were added, and renders them as one string.
#[derive(Debug, Clone)]
pub struct TemplateAccumulator {
    templates: Vec<String>,
}

impl View for TemplateAccumulator {
    type V = Seq<Seq<char>>;

    /// The accumulated fragments, in order.
    closed spec fn view(&self) -> Seq<Seq<char>> {
        views_of(self.templates@)
    }
}

impl TemplateAccumulator {
    /// Creates an empty accumulator.
    pub fn new() -> (acc: Self)
        ensures
            acc@ == Seq::<Seq<char>>::empty(),
    {
        let acc = Self { templates: Vec::new() };
        assert(acc@ =~= Seq::<Seq<char>>::empty());
        acc
    }

    /// Creates an empty accumulator with room for `capacity` fragments.
    pub fn with_capacity(capacity: usize) -> (acc: Self)
        ensures
            acc@ == Seq::<Seq<char>>::empty(),
    {
        let acc = Self { templates: Vec::with_capacity(capacity) };
        assert(acc@ =~= Seq::<Seq<char>>::empty());
        acc
    }

    /// Adds the string form of `item` at the end.
    pub fn push<T: Renderable>(&mut self, item: T)
        ensures
            final(self)@ == old(self)@.push(item.rendered()),
    {
        let piece = item.render();
        self.templates.push(piece);
        assert(self@ =~= old(self)@.push(item.rendered()));
    }

    /// Adds the string form of `item` at the end and hands the accumulator
    /// back, for chaining.
    pub fn add<T: Renderable>(self, item: T) -> (acc: Self)
        ensures
            acc@ == self@.push(item.rendered()),
    {
        let mut acc = self;
        acc.push(item);
        acc
    }

    /// Adds the string forms of `items` at the end, in their order.
    pub fn extend<T: Renderable>(&mut self, items: Vec<T>)
        ensures
            final(self)@ == old(self)@ + rendered_items(items@),
    {
        let mut i: usize = 0;
        assert(self@ =~= old(self)@ + rendered_items(items@.take(0)));
        while i < items.len()
            invariant
                i <= items.len(),
                self@ == old(self)@ + rendered_items(items@.take(i as int)),
            decreases items.len() - i,
        {
            let ghost before = self@;
            let piece = items[i].render();
            self.templates.push(piece);
            i += 1;
            assert(self@ =~= before.push(piece@));
            assert(self@ =~= old(self)@ + rendered_items(items@.take(i as int)));
        }
        assert(items@.take(items.len() as int) =~= items@);
    }

    /// The number of accumulated fragments.
    pub fn len(&self) -> (n: usize)
        ensures
            n == self@.len(),
    {
        self.templates.len()
    }

    /// Whether nothing has been accumulated.
    pub fn is_empty(&self) -> (b: bool)
        ensures
            b == (self@.len() == 0),
    {
        self.templates.len() == 0
    }

    /// Removes all accumulated fragments.
    pub fn clear(&mut self)
        ensures
            final(self)@ == Seq::<Seq<char>>::empty(),
    {
        self.templates.clear();
        assert(self@ =~= Seq::<Seq<char>>::empty());
    }

    /// Renders the fragments in order, with `separator` between each two
    /// neighbours.
    pub fn render_with_separator(&self, separator: &str) -> (s: String)
        ensures
            s@ == join_all(self@, separator@),
    {
        join_strings(&self.templates, separator)
    }

    /// Gives up the accumulator for its fragments, in order.
    pub fn into_inner(self) -> (fragments: Vec<String>)
        ensures
            views_of(fragments@) == self@,
    {
        self.templates
    }

    /// The accumulator that holds the fragments of `self` followed by those
    /// of `other`.
    pub fn concat(self, other: Self) -> (acc: Self)
        ensures
            acc@ == self@ + other@,
    {
        let mut acc = self;
        let mut other = other;
        let ghost first = acc.templates@;
        let ghost second = other.templates@;
        acc.templates.append(&mut other.templates);
        assert(views_of(first + second) =~= views_of(first) + views_of(second));
        acc
    }

    /// The accumulator that holds the string forms of `items`, in order.
    pub fn from_items<T: Renderable>(items: Vec<T>) -> (acc: Self)
        ensures
            acc@ == rendered_items(items@),
    {
        let mut acc = Self::with_capacity(items.len());
        acc.extend(items);
        assert(acc@ =~= rendered_items(items@));
        acc
    }
}

impl Renderable for TemplateAccumulator {
    /// The fragments, one after the other.
    open spec fn rendered(&self) -> Seq<char> {
        concat_all(self@)
    }

    fn render(&self) -> (s: String) {
        concat_strings(&self.templates)
    }
}

impl Default for TemplateAccumulator {
    fn default() -> (acc: Self)
        ensures
            acc@ == Seq::<Seq<char>>::empty(),
    {
        Self::new()
    }
}

impl<T: Renderable> From<Vec<T>> for TemplateAccumulator {
    fn from(items: Vec<T>) -> (acc: Self)
        ensures
            acc@ == rendered_items(items@),
    {
        Self::from_items(items)
    }
}

impl<T: Renderable> vstd::std_specs::convert::FromSpecImpl<Vec<T>> for TemplateAccumulator {
    open spec fn obeys_from_spec() -> bool {
        false
    }

    open spec fn from_spec(v: Vec<T>) -> Self {
        arbitrary()
    }
}

impl std::ops::Add for TemplateAccumulator {
    type Output = TemplateAccumulator;

    fn add(self, other: Self) -> (acc: Self)
        ensures
            acc@ == self@ + other@,
    {
        self.concat(other)
    }
}

impl vstd::std_specs::ops::AddSpecImpl for TemplateAccumulator {
    open spec fn obeys_add_spec() -> bool {
        false
    }

    open spec fn add_req(self, other: Self) -> bool {
        true
    }

    open spec fn add_spec(self, other: Self) -> Self {
        arbitrary()
    }
}

impl<T: Renderable> std::ops::AddAssign<T> for TemplateAccumulator {
    fn add_assign(&mut self, item: T)
        ensures
            final(self)@ == old(self)@.push(item.rendered()),
    {
        self.push(item);
    }
}

} // verus!
