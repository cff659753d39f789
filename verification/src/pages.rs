//! Three page components, written out by hand: each renders the literals of
//! its template and the string forms of the values it embeds, in template
//! order.

use crate::accumulator::TemplateAccumulator;
use crate::renderable::{rendered_items, Renderable};
use crate::text::{concat_all, join_all};
use vstd::prelude::*;
use vstd::string::*;

verus! {

/// A button with a label.
pub struct Button<'a> {
    pub label: &'a str,
}

impl<'a> Renderable for Button<'a> {
    open spec fn rendered(&self) -> Seq<char> {
        concat_all(seq!["<button>"@, self.label@, "</button>"@])
    }

    fn render(&self) -> (s: String) {
        let mut acc = TemplateAccumulator::with_capacity(3);
        acc.push("<button>");
        acc.push(self.label);
        acc.push("</button>");
        assert(acc@ =~= seq!["<button>"@, self.label@, "</button>"@]);
        acc.render()
    }
}

/// A page frame: a title and a body of any renderable type.
pub struct Layout<'a, T: Renderable> {
    pub title: &'a str,
    pub body: T,
}

impl<'a, T: Renderable> Renderable for Layout<'a, T> {
    open spec fn rendered(&self) -> Seq<char> {
        concat_all(
            seq![
                "\n<!DOCTYPE html>\n<html lang=\"en\">\n    <head>\n    </head>\n    <body>\n        <h1>"@,
                self.title@,
                "</h1>\n        "@,
                self.body.rendered(),
                "\n    </body>\n</html>\n"@,
            ],
        )
    }

    fn render(&self) -> (s: String) {
        let mut acc = TemplateAccumulator::with_capacity(5);
        acc.push(
            "\n<!DOCTYPE html>\n<html lang=\"en\">\n    <head>\n    </head>\n    <body>\n        <h1>",
        );
        acc.push(self.title);
        acc.push("</h1>\n        ");
        acc.push(self.body.render());
        acc.push("\n    </body>\n</html>\n");
        assert(acc@ =~= seq![
            "\n<!DOCTYPE html>\n<html lang=\"en\">\n    <head>\n    </head>\n    <body>\n        <h1>"@,
            self.title@,
            "</h1>\n        "@,
            self.body.rendered(),
            "\n    </body>\n</html>\n"@,
        ]);
        acc.render()
    }
}

/// The main page: the frame, with a paragraph and a button as its body,
/// one below the other.
pub struct MainPage {}

impl MainPage {
    /// The string form of the frame that the main page embeds.
    pub open spec fn frame() -> Seq<char> {
        concat_all(
            seq![
                "\n<!DOCTYPE html>\n<html lang=\"en\">\n    <head>\n    </head>\n    <body>\n        <h1>"@,
                "Main Page"@,
                "</h1>\n        "@,
                join_all(
                    seq![
                        "<p>Welcome to the main page!</p>"@,
                        concat_all(seq!["<button>"@, "Click Me"@, "</button>"@]),
                    ],
                    seq!['\n'],
                ),
                "\n    </body>\n</html>\n"@,
            ],
        )
    }
}

impl Renderable for MainPage {
    open spec fn rendered(&self) -> Seq<char> {
        concat_all(seq!["\n"@, "\n"@, "\n"@, MainPage::frame(), "\n"@])
    }

    fn render(&self) -> (s: String) {
        let mut body: Vec<String> = Vec::with_capacity(2);
        body.push("<p>Welcome to the main page!</p>".render());
        body.push(Button { label: "Click Me" }.render());
        assert(rendered_items(body@) =~= seq![
            "<p>Welcome to the main page!</p>"@,
            concat_all(seq!["<button>"@, "Click Me"@, "</button>"@]),
        ]);
        let layout = Layout { title: "Main Page", body };
        let mut acc = TemplateAccumulator::with_capacity(5);
        acc.push("\n");
        acc.push("\n");
        acc.push("\n");
        acc.push(layout.render());
        acc.push("\n");
        assert(acc@ =~= seq!["\n"@, "\n"@, "\n"@, MainPage::frame(), "\n"@]);
        acc.render()
    }
}

} // verus!
