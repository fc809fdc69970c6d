//! A page: the document of one response, and what was made of it.

use vstd::prelude::*;
use crate::display_item::DisplayItem;
use crate::http::HttpResponse;
use crate::renderer::dom::node::NodeView;
use crate::renderer::dom::node::Window;
use crate::renderer::dom::node::tree_wf;
use crate::renderer::html::parser::BuilderView;
use crate::renderer::html::parser::HtmlParser;
use crate::renderer::html::parser::Issue;
use crate::renderer::html::parser::IssueView;
use crate::renderer::html::parser::construct;
use crate::renderer::html::parser::issues_view;
use crate::renderer::html::token::HtmlTokenizer;
use crate::renderer::html::token::TokenizerView;
use crate::renderer::layout::layout_view::LayoutView;
use crate::text::chars_of;
use crate::utils::convert_dom_to_string;
use crate::utils::outline;

verus! {

/// What the markup `html` is built into.
pub open spec fn built(html: Seq<char>) -> BuilderView {
    construct(TokenizerView::initial(html), BuilderView::initial())
}

#[derive(Debug)]
pub struct Page {
    frame: Option<Window>,
    layout_view: Option<LayoutView>,
    display_items: Vec<DisplayItem>,
    issues: Vec<Issue>,
}

impl Page {
    /// A page without a document.
    pub fn new() -> (p: Self)
        ensures
            p.frame_view() is None,
            p.layout_body() is None,
            p.issues_of() == Seq::<IssueView>::empty(),
            p.display_items_view() == Seq::<DisplayItem>::empty(),
    {
        let issues: Vec<Issue> = Vec::new();
        assert(issues_view(issues@) =~= Seq::<IssueView>::empty());
        Self { frame: None, layout_view: None, display_items: Vec::new(), issues }
    }

    /// The document of the page, if it has one.
    pub closed spec fn frame_view(&self) -> Option<Seq<NodeView>> {
        match self.frame {
            Some(w) => Some(w@),
            None => None,
        }
    }

    /// What the document of the page held that could not be used.
    pub closed spec fn issues_of(&self) -> Seq<IssueView> {
        issues_view(self.issues@)
    }

    /// The body element that the layout of the page would lay out: `None`
    /// where the page has no layout.
    pub closed spec fn layout_body(&self) -> Option<Option<usize>> {
        match self.layout_view {
            Some(v) => Some(v.body_node()),
            None => None,
        }
    }

    /// What the page is to draw.
    pub closed spec fn display_items_view(&self) -> Seq<DisplayItem> {
        self.display_items@
    }

    pub fn set_frame(&mut self, frame: Window)
        ensures
            final(self).frame_view() == Some(frame@),
            final(self).layout_body() == old(self).layout_body(),
            final(self).issues_of() == old(self).issues_of(),
            final(self).display_items_view() == old(self).display_items_view(),
    {
        self.frame = Some(frame);
    }

    pub fn set_layout_view(&mut self, layout_view: LayoutView)
        ensures
            final(self).layout_body() == Some(layout_view.body_node()),
            final(self).frame_view() == old(self).frame_view(),
            final(self).issues_of() == old(self).issues_of(),
            final(self).display_items_view() == old(self).display_items_view(),
    {
        self.layout_view = Some(layout_view);
    }

    pub fn set_display_items(&mut self, display_items: Vec<DisplayItem>)
        ensures
            final(self).frame_view() == old(self).frame_view(),
            final(self).layout_body() == old(self).layout_body(),
            final(self).issues_of() == old(self).issues_of(),
            final(self).display_items_view() == display_items@,
    {
        self.display_items = display_items;
    }

    /// The document of the page, if it has one.
    pub fn frame(&self) -> (r: Option<&Window>)
        ensures
            match r {
                Some(w) => self.frame_view() == Some(w@),
                None => self.frame_view() is None,
            },
    {
        match &self.frame {
            Some(w) => Some(w),
            None => None,
        }
    }

    /// What the document of the page held that could not be used.
    pub fn issues(&self) -> (r: &Vec<Issue>)
        ensures
            issues_view(r@) == self.issues_of(),
    {
        &self.issues
    }

    /// Builds the document that the body of `response` spells out, keeps it
    /// as the document of the page, and returns its outline.
    pub fn receive_response(&mut self, response: HttpResponse) -> (outline_text: String)
        ensures
            final(self).frame_view() == Some(built(response.body@).nodes),
            final(self).issues_of() == built(response.body@).issues,
            final(self).layout_body() == old(self).layout_body(),
            final(self).display_items_view() == old(self).display_items_view(),
            tree_wf(built(response.body@).nodes),
            outline_text@ == "\n"@ + outline(built(response.body@).nodes, Some(0usize), 0),
    {
        self.create_frame(response.body());
        match &self.frame {
            Some(frame) => convert_dom_to_string(frame, Some(frame.document())),
            None => String::new(),
        }
    }

    fn create_frame(&mut self, html: String)
        ensures
            final(self).frame_view() == Some(built(html@).nodes),
            final(self).issues_of() == built(html@).issues,
            final(self).layout_body() == old(self).layout_body(),
            final(self).display_items_view() == old(self).display_items_view(),
            tree_wf(built(html@).nodes),
    {
        let html_tokenizer = HtmlTokenizer::new(chars_of(html.as_str()));
        let mut parser = HtmlParser::new(html_tokenizer);
        let frame = parser.construct_tree();
        let mut issues: Vec<Issue> = Vec::new();
        parser.take_issues(&mut issues);
        self.issues = issues;
        self.frame = Some(frame);
    }
}

impl Default for Page {
    fn default() -> (p: Self)
        ensures
            p.frame_view() is None,
    {
        Self::new()
    }
}

} // verus!
