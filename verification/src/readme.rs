//! Readmes: Markdown made into HTML by comrak, with fenced code
//! highlighted.

use comrak::nodes::AstNode;
use comrak::Options;
use typed_arena::Arena;
use vstd::prelude::*;
use vstd::string::*;
use crate::view::{code_block_html, is_plain_block};

verus! {

#[verifier::external_type_specification]
#[verifier::external_body]
pub struct ExOptions<'c>(Options<'c>);

#[verifier::external_type_specification]
#[verifier::external_body]
#[verifier::reject_recursive_types(T)]
pub struct ExArena<T>(Arena<T>);

#[verifier::external_type_specification]
#[verifier::external_body]
#[verifier::reject_recursive_types(T)]
pub struct ExNode<'a, T: 'a>(comrak::arena_tree::Node<'a, T>);

#[verifier::external_type_specification]
#[verifier::external_body]
#[verifier::reject_recursive_types(T)]
pub struct ExRefCell<T: ?Sized>(core::cell::RefCell<T>);

#[verifier::external_type_specification]
#[verifier::external_body]
pub struct ExAst(comrak::nodes::Ast);

/// A fenced block of code: what it is marked as, and the code.
pub struct CodeBlock {
    pub info: String,
    pub literal: String,
}

/// `typed_arena::Arena::new`.
#[verifier::external_body]
fn new_arena<'a>() -> (r: Arena<AstNode<'a>>) {
    Arena::new()
}

/// `comrak::parse_document`: the document that a Markdown text describes.
#[verifier::external_body]
fn parse<'a>(arena: &'a Arena<AstNode<'a>>, text: &str, options: &Options<'_>) -> (r: &'a AstNode<'a>) {
    comrak::parse_document(arena, text, options)
}

/// `comrak::arena_tree::Node::descendants`, walked to its end: a node and
/// everything below it.
#[verifier::external_body]
fn descendants<'a>(node: &'a AstNode<'a>) -> (r: Vec<&'a AstNode<'a>>) {
    node.descendants().collect()
}

/// The value of a node, where it is `NodeValue::CodeBlock`.
#[verifier::external_body]
fn code_block(node: &AstNode<'_>) -> (r: Option<CodeBlock>) {
    match &node.data.borrow().value {
        comrak::nodes::NodeValue::CodeBlock(block) => Some(
            CodeBlock { info: block.info.clone(), literal: block.literal.clone() },
        ),
        _ => None,
    }
}

/// Gives a node the value `NodeValue::HtmlBlock` with this HTML.
#[verifier::external_body]
fn set_html_block(node: &AstNode<'_>, html: String) {
    node.data.borrow_mut().value = comrak::nodes::NodeValue::HtmlBlock(
        comrak::nodes::NodeHtmlBlock { literal: html, block_type: 0 },
    );
}

/// `comrak::nodes::AstNode::validate`, then `comrak::format_html`: the
/// document as HTML, or `None` where it is not well formed or cannot be
/// written. The formatter stops on a document that is not well formed, so
/// such a one is not handed to it.
#[verifier::external_body]
fn format<'a>(document: &'a AstNode<'a>, options: &Options<'_>) -> (r: Option<String>) {
    document.validate().ok()?;
    let mut html = String::new();
    comrak::format_html(document, options, &mut html).ok()?;
    Some(html)
}

/// What takes the place of a fenced block of code: its highlighting,
/// marked up as code, or nothing where there is no highlighting for it.
pub open spec fn replacement_of(token: Seq<char>, highlighted: Option<String>) -> Option<Seq<char>> {
    match highlighted {
        Some(highlighted) => Some(crate::view::code_block_of(token, highlighted@)),
        None => None,
    }
}

/// Decides what takes the place of a fenced block of code, given what
/// highlighting made of it.
pub fn replacement(token: &str, highlighted: Option<String>) -> (r: Option<String>)
    ensures
        crate::text::opt_text(r) == replacement_of(token@, highlighted),
{
    match highlighted {
        Some(highlighted) => Some(code_block_html(token, highlighted.as_str())),
        None => None,
    }
}

/// A readme as HTML, read and written as `options` say.
///
/// Each fenced block of code that is not marked as `text` is handed to
/// `highlight` with what it is marked as and its code, and is replaced by
/// what [`replacement`] makes of the answer. `None` where the document
/// is not well formed or cannot be written.
pub fn render<F: Fn(&str, &str) -> Option<String>>(options: &Options<'_>, readme: &str, highlight: F) -> (r:
    Option<String>)
    requires
        forall|token: &str, code: &str| call_requires(highlight, (token, code)),
{
    let arena = new_arena();
    let document = parse(&arena, readme, options);
    let nodes = descendants(document);
    let mut i: usize = 0;
    while i < nodes.len()
        invariant
            i <= nodes@.len(),
            forall|token: &str, code: &str| call_requires(highlight, (token, code)),
        decreases nodes@.len() - i,
    {
        match code_block(nodes[i]) {
            Some(block) => {
                if !is_plain_block(block.info.as_str()) {
                    let highlighted = highlight(block.info.as_str(), block.literal.as_str());
                    match replacement(block.info.as_str(), highlighted) {
                        Some(html) => {
                            set_html_block(nodes[i], html);
                        },
                        None => {},
                    }
                }
            },
            None => {},
        }
        i += 1;
    }
    format(document, options)
}

} // verus!
