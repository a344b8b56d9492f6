//! The template engine as a run needs it: path segments and file contents
//! go through one engine that escapes nothing. The engine is set up here;
//! it is called outside this library, where a template that makes it panic
//! can be caught.

use vstd::prelude::*;
use vstd::string::*;
use crate::text::texts;

verus! {

/// Declares the template engine.
#[verifier::external_type_specification]
#[verifier::external_body]
pub struct ExTera(tera::Tera);

/// The renderer of one instantiation.
pub struct Renderer {
    engine: tera::Tera,
}

/// The suffixes that an engine holds for escaping: what it substitutes
/// into a template is escaped where the template's name ends in one of
/// them.
pub uninterp spec fn escaped_suffixes(engine: tera::Tera) -> Seq<Seq<char>>;

/// `tera::Tera::default`: an engine without templates. Nothing is claimed
/// of it.
#[verifier::external_body]
fn default_engine() -> tera::Tera {
    tera::Tera::default()
}

/// `tera::Tera::autoescape_on` with an empty list: the engine then holds no
/// suffix for escaping.
#[verifier::external_body]
fn escape_no_suffix(engine: &mut tera::Tera)
    ensures
        escaped_suffixes(*final(engine)) == Seq::<Seq<char>>::empty(),
{
    engine.autoescape_on(Vec::new());
}

/// `tera::Tera::set_escape_fn` with [`unescaped`]: the escape function is
/// replaced, and the suffixes for escaping stay as they are.
#[verifier::external_body]
fn escape_by_identity(engine: &mut tera::Tera)
    ensures
        escaped_suffixes(*final(engine)) == escaped_suffixes(*old(engine)),
{
    engine.set_escape_fn(unescaped);
}

/// The field `autoescape_suffixes` of a `tera::Tera`: the suffixes that the
/// engine holds for escaping, in their order.
#[verifier::external_body]
fn suffixes_of(engine: &tera::Tera) -> (suffixes: Vec<String>)
    ensures
        texts(suffixes@) == escaped_suffixes(*engine),
{
    engine.autoescape_suffixes.iter().map(|suffix| suffix.to_string()).collect()
}

/// The escape function of the engine: the text itself.
pub fn unescaped(text: &str) -> (same: String)
    ensures
        same@ == text@,
{
    text.to_owned()
}

impl Renderer {
    /// The suffixes of template names on which the renderer escapes what it
    /// substitutes.
    pub closed spec fn escapes_on(&self) -> Seq<Seq<char>> {
        escaped_suffixes(self.engine)
    }

    /// A renderer that escapes on no template name, and whose escape
    /// function gives the text itself.
    pub fn new() -> (renderer: Renderer)
        ensures
            renderer.escapes_on() == Seq::<Seq<char>>::empty(),
    {
        let mut engine = default_engine();
        escape_no_suffix(&mut engine);
        escape_by_identity(&mut engine);
        Renderer { engine }
    }

    /// Lists the suffixes of template names on which the renderer escapes.
    pub fn escaped_suffixes(&self) -> (suffixes: Vec<String>)
        ensures
            texts(suffixes@) == self.escapes_on(),
    {
        suffixes_of(&self.engine)
    }

    /// Hands the engine over as it is set up, to be called with the
    /// templates of the run.
    pub fn into_engine(self) -> (engine: tera::Tera)
        ensures
            escaped_suffixes(engine) == self.escapes_on(),
    {
        self.engine
    }
}

} // verus!
