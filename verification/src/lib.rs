//! A rewrite engine for a reactive-UI authoring syntax.
//!
//! Authors write plain expressions inside the interpolation slots of element
//! trees and inside marker calls such as `always(..)`, `run(..)` and
//! `renderFrontend(..)`. The engine turns them into the explicit calls that
//! the reactivity runtime consumes:
//!
//! * an expression in a reactive slot is left alone, turned into an accessor
//!   call, or wrapped into a tracked closure ([`visitor`], [`rewrite`]);
//! * a closure that will run in another execution context is given a
//!   declaration of every variable that it captures ([`closure`], [`scope`]);
//! * the children of an element are rewritten in order, where literal text
//!   can exempt the interpolation after it ([`visitor`], [`text`]).
//!
//! The engine works on syntax trees of its own ([`ast`]). Every function
//! states what it returns over the mathematical model of its arguments, and
//! [`laws`] holds what is proved of the engine as a whole.
pub mod ast;
pub mod closure;
pub mod laws;
pub mod markers;
pub mod rewrite;
pub mod scope;
pub mod suspend;
pub mod text;
pub mod visitor;
