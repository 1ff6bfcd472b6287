//! The calls into the `rquickjs` engine, and into `base64`, `rand_pcg` and
//! the standard library, that a run needs.

use std::sync::{Arc, Mutex};
use base64::Engine as _;
use rand::RngCore;
use rand::SeedableRng;
use rand_pcg::Pcg64;
use rquickjs::{Context, Ctx, Error, Function, Module, Object, Runtime, Value};
use vstd::prelude::*;
use crate::engine::guard::RunGuard;
use crate::engine::hooks::{random_fraction_bits, record_shared, decode_for_atob, SharedLog};
use crate::engine::native::{outcome_view, run_outcome, run_script, RunOutcome, RunTrace, ScriptJob};
use crate::engine::EngineError;


verus! {

/// The engine's runtime, carried opaquely.
#[verifier::external_type_specification]
#[verifier::external_body]
pub struct ExRuntime(Runtime);

/// An engine context, carried opaquely.
#[verifier::external_type_specification]
#[verifier::external_body]
pub struct ExContext(Context);

/// A handle on a locked context, carried opaquely.
#[verifier::external_type_specification]
#[verifier::external_body]
pub struct ExCtx<'js>(Ctx<'js>);

/// An engine error, carried opaquely.
#[verifier::external_type_specification]
#[verifier::external_body]
pub struct ExError(Error);

/// A JavaScript function value, carried opaquely.
#[verifier::external_type_specification]
#[verifier::external_body]
pub struct ExFunction<'js>(Function<'js>);

/// A JavaScript object value, carried opaquely.
#[verifier::external_type_specification]
#[verifier::external_body]
pub struct ExObject<'js>(Object<'js>);

/// A module, carried opaquely.
#[verifier::external_type_specification]
#[verifier::external_body]
#[verifier::reject_recursive_types(T)]
pub struct ExModule<'js, T>(Module<'js, T>);

/// The state of a module that is declared but not yet evaluated.
#[verifier::external_type_specification]
#[verifier::external_body]
pub struct ExDeclared(rquickjs::module::Declared);

/// A standard library mutex, carried opaquely.
#[verifier::external_type_specification]
#[verifier::external_body]
#[verifier::reject_recursive_types(T)]
pub struct ExMutex<T: ?Sized>(Mutex<T>);

/// The permuted congruential generator of `rand_pcg`, carried opaquely.
#[verifier::external_type_specification]
#[verifier::external_body]
pub struct ExPcg64(Pcg64);

/// `Runtime::new`; the error, if any, as its display text.
#[verifier::external_body]
pub(crate) fn new_runtime() -> Result<Runtime, String> {
    Runtime::new().map_err(|e| e.to_string())
}

/// `Runtime::set_memory_limit`; the ghost result records the ceiling handed
/// to the runtime.
#[verifier::external_body]
pub(crate) fn set_memory_limit(runtime: &Runtime, bytes: usize) -> (g: Ghost<usize>)
    ensures
        g@ == bytes,
{
    runtime.set_memory_limit(bytes);
    Ghost(bytes)
}

/// `Runtime::set_interrupt_handler`, with a handler that asks `guard`; the
/// ghost result records the budgets of the guard handed to the runtime.
#[verifier::external_body]
pub(crate) fn set_interrupt_guard(runtime: &Runtime, guard: RunGuard) -> (g: Ghost<(u64, u64)>)
    ensures
        g@ == (guard.max_wall_ms(), guard.max_instructions()),
{
    let g = Ghost((guard.max_wall_ms(), guard.max_instructions()));
    runtime.set_interrupt_handler(Some(Box::new(move || guard.should_interrupt())));
    g
}

/// `Runtime::memory_usage`: the bytes the engine reports in use.
#[verifier::external_body]
pub(crate) fn memory_used(runtime: &Runtime) -> i64 {
    runtime.memory_usage().memory_used_size
}

/// `Context::full`; the error, if any, as its display text.
#[verifier::external_body]
pub(crate) fn new_context(runtime: &Runtime) -> Result<Context, String> {
    Context::full(runtime).map_err(|e| e.to_string())
}

/// `Ctx::eval` of a script whose value is kept: the `Debug` rendering of the value.
#[verifier::external_body]
pub(crate) fn eval_value<'js>(ctx: &Ctx<'js>, code: &str) -> Result<String, Error> {
    match ctx.eval::<Value, _>(code) {
        Ok(v) => Ok(format!("{:?}", v)),
        Err(e) => Err(e),
    }
}

/// `Ctx::eval` of a script whose value is dropped; on success the ghost
/// result records the script handed to the engine.
#[verifier::external_body]
pub(crate) fn eval_unit<'js>(ctx: &Ctx<'js>, code: &str) -> (r: Result<Ghost<Seq<char>>, Error>)
    ensures
        r matches Ok(g) ==> g@ == code@,
{
    ctx.eval::<(), _>(code)?;
    Ok(Ghost(code@))
}

/// `Module::declare`: compiles `code` as a module named `name`.
#[verifier::external_body]
pub(crate) fn declare_module<'js>(ctx: &Ctx<'js>, name: &str, code: &str) -> Result<Module<'js>, Error> {
    Module::declare(ctx.clone(), name, code)
}

/// `Module::eval`: links and evaluates a declared module.
#[verifier::external_body]
pub(crate) fn eval_module<'js>(module: Module<'js>) -> Result<(), Error> {
    match module.eval() {
        Ok(_) => Ok(()),
        Err(e) => Err(e),
    }
}

/// `Error::is_exception`: whether the error stands for a pending JavaScript exception.
#[verifier::external_body]
pub(crate) fn is_exception(e: &Error) -> bool {
    e.is_exception()
}

/// `Ctx::catch`: takes the pending exception, rendered with `Debug`.
#[verifier::external_body]
pub(crate) fn catch_text<'js>(ctx: &Ctx<'js>) -> String {
    format!("{:?}", ctx.catch())
}

/// The display text of an engine error.
#[verifier::external_body]
pub(crate) fn error_text(e: &Error) -> String {
    e.to_string()
}

/// `Context::with`: runs `run_script` once on the locked context and hands
/// back what it returns; the contract repeats what `run_script` ensures.
#[verifier::external_body]
pub(crate) fn with_context(context: &Context, job: ScriptJob) -> (r: (
    Result<RunOutcome, EngineError>,
    Ghost<RunTrace>,
))
    ensures
        r.0 matches Ok(o) ==> outcome_view(o) == run_outcome(
            job.code@,
            r.1@,
            job.guard.max_wall_ms() as nat,
            job.guard.max_instructions() as nat,
        ),
        r.0 matches Ok(o) ==> (o.completed <==> o.error is None) && (o.completed <==> o.return_value is Some),
        r.0 matches Err(e) ==> e is Initialization,
{
    context.with(|ctx| run_script(&ctx, job))
}

/// What `base64`'s standard engine decodes `input` to, `None` when it rejects
/// the input.
pub uninterp spec fn base64_standard_decode(input: Seq<char>) -> Option<Seq<u8>>;

/// `general_purpose::STANDARD.decode`: the contract claims the result is the
/// named decoding of the input.
#[verifier::external_body]
pub(crate) fn base64_decode(input: &str) -> (r: Option<Vec<u8>>)
    ensures
        match base64_standard_decode(input@) {
            Some(b) => r matches Some(v) && v@ == b,
            None => r is None,
        },
{
    match base64::engine::general_purpose::STANDARD.decode(input) {
        Ok(bytes) => Some(bytes),
        Err(_) => None,
    }
}

/// What `String::from_utf8_lossy` makes of `bytes`: the text they encode,
/// with each invalid sequence replaced by U+FFFD.
pub uninterp spec fn utf8_lossy_text(bytes: Seq<u8>) -> Seq<char>;

/// `String::from_utf8_lossy`: the contract claims the result is the named
/// lossy decoding of the bytes.
#[verifier::external_body]
pub(crate) fn utf8_lossy(bytes: &Vec<u8>) -> (r: String)
    ensures
        r@ == utf8_lossy_text(bytes@),
{
    String::from_utf8_lossy(bytes).to_string()
}

/// `Pcg64::seed_from_u64`, shared behind a mutex; nothing is promised of
/// the generator's state.
#[verifier::external_body]
pub(crate) fn seeded_rng(seed: u64) -> Arc<Mutex<Pcg64>> {
    Arc::new(Mutex::new(Pcg64::seed_from_u64(seed)))
}

/// `RngCore::next_u64` on the shared generator; nothing is promised of the
/// number.
#[verifier::external_body]
pub(crate) fn draw_u64(rng: &Arc<Mutex<Pcg64>>) -> u64 {
    rng.lock().unwrap().next_u64()
}

/// `Arc::clone`: the contract claims the copy points to the same value.
#[verifier::external_body]
pub(crate) fn share<T>(a: &Arc<T>) -> (r: Arc<T>)
    ensures
        r == *a,
{
    Arc::clone(a)
}

/// `Function::new` of the logging hook: each call records an event.
#[verifier::external_body]
pub(crate) fn log_function<'js>(ctx: &Ctx<'js>, log: SharedLog) -> Result<Function<'js>, Error> {
    Function::new(ctx.clone(), move |name: String, payload: Option<String>| {
        record_shared(&log, name, payload)
    })
}

/// `Function::new` of the base64 decoding hook; a rejected input raises.
#[verifier::external_body]
pub(crate) fn atob_function<'js>(ctx: &Ctx<'js>) -> Result<Function<'js>, Error> {
    Function::new(ctx.clone(), |input: String| decode_for_atob(input).ok_or(Error::Exception))
}

/// `Function::new` of the random hook: each call draws 53 random bits.
#[verifier::external_body]
pub(crate) fn random_function<'js>(ctx: &Ctx<'js>, rng: Arc<Mutex<Pcg64>>) -> Result<Function<'js>, Error> {
    Function::new(ctx.clone(), move || random_fraction_bits(&rng))
}

/// `Function::new` of the clock hook: each call answers `ms`.
#[verifier::external_body]
pub(crate) fn clock_function<'js>(ctx: &Ctx<'js>, ms: i64) -> Result<Function<'js>, Error> {
    Function::new(ctx.clone(), move || ms)
}

/// `Object::set` of a function on the global object; on success the ghost
/// result records the global's name.
#[verifier::external_body]
pub(crate) fn set_global_function<'js>(ctx: &Ctx<'js>, name: &str, f: Function<'js>) -> (r: Result<
    Ghost<Seq<char>>,
    Error,
>)
    ensures
        r matches Ok(g) ==> g@ == name@,
{
    ctx.globals().set(name, f)?;
    Ok(Ghost(name@))
}

/// `Object::set` of an object on the global object; on success the ghost
/// result records the global's name.
#[verifier::external_body]
pub(crate) fn set_global_object<'js>(ctx: &Ctx<'js>, name: &str, o: Object<'js>) -> (r: Result<
    Ghost<Seq<char>>,
    Error,
>)
    ensures
        r matches Ok(g) ==> g@ == name@,
{
    ctx.globals().set(name, o)?;
    Ok(Ghost(name@))
}

/// `Object::new`.
#[verifier::external_body]
pub(crate) fn new_object<'js>(ctx: &Ctx<'js>) -> Result<Object<'js>, Error> {
    Object::new(ctx.clone())
}

/// `Object::set` of a string property; on success the ghost result records
/// the key and the value.
#[verifier::external_body]
pub(crate) fn set_text_property<'js>(o: &Object<'js>, key: &str, value: &str) -> (r: Result<
    Ghost<(Seq<char>, Seq<char>)>,
    Error,
>)
    ensures
        r matches Ok(g) ==> g@ == (key@, value@),
{
    o.set(key, value)?;
    Ok(Ghost((key@, value@)))
}

/// `Object::set` of an integer property; on success the ghost result records
/// the key and the value.
#[verifier::external_body]
pub(crate) fn set_integer_property<'js>(o: &Object<'js>, key: &str, value: i32) -> (r: Result<
    Ghost<(Seq<char>, i32)>,
    Error,
>)
    ensures
        r matches Ok(g) ==> g@ == (key@, value),
{
    o.set(key, value)?;
    Ok(Ghost((key@, value)))
}

} // verus!
