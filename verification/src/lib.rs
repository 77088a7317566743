//! An embeddable scripting language.
//!
//! Source text is tokenized and parsed into a syntax tree, every identifier
//! is bound to a `(slot, depth)` address by the scope resolver, and the
//! result is run by one of two backends: a tree-walking evaluator or a
//! compiler to 32-bit instructions with a stack machine that executes them.
//!
//! # Example Script
//!
//! ```text
//! function main() {
//!     printf("Hello, world!\n");
//!     return 42;
//! }
//! ```
use std::rc::Rc;
use vstd::prelude::*;

pub mod text;
pub mod src_loc;
pub mod number;
pub mod native;
pub mod value;
pub mod errors;
pub mod heap;
pub mod runtime;
pub mod env;
pub mod sym_tab;
pub mod readers;
pub mod parser;
pub mod ast;
pub mod exec;
pub mod bytecode;
pub mod loader;

pub use self::env::Env;
pub use self::errors::RunError;
pub use self::parser::ParseError;
pub use self::readers::{InputSource, ReadError};
pub use self::value::Value;
use self::ast::analysis::State;
use self::bytecode::agree::small;
use self::bytecode::control::{plain_block, shallow_block};
use self::bytecode::run::{RunV, vm_call};
use self::bytecode::whole::{holds_func, keeps, lemma_func_agrees, lemma_func_keeps};
use self::exec::scoping::unshared;
use self::exec::semantics::apply;
use self::env::{GLOBAL, define_global, env_get};
use self::errors::{RunErrorV, res_view};
use self::exec::semantics::call_value;
use self::ast::tree::{NamedFuncV, named_views};
use self::loader::{BleepLoader, is_language, load_is};
use self::parser::errors::ParseErrorV;
use self::parser::grammar::{Syntax, program};
use self::parser::{MAX_SOURCES, listed, parsed_from};
use self::readers::string::{refusal, string_sources};
use self::readers::{Openings, StringInputOpener};
use self::native::NativeHost;
use self::runtime::{Runtime, RuntimeV};
use self::src_loc::{SrcLoc, SrcLocV};
use self::sym_tab::{SymTab, lookup, slot_after_add, with_name};
use self::text::join3;

verus! {

/// Script loader and executor.
///
/// To make a function of the host callable from a script, register it
/// with the host under an index from `native::FIRST_USER_FUNC` on, and bind
/// a name to it with `set_var(name, Value::new_native_func(index))`. Do so
/// before loading a script that uses the name, or loading fails because
/// the name is not declared.
pub struct Bleep<H: NativeHost> {
    rt: Runtime,
    sym_tab: SymTab,
    bytecode: bytecode::Program,
    funcs: Vec<ast::NamedFuncDef>,
    host: H,
    limit: u64,
}

/// The place of a call that comes from the host.
pub open spec fn host_loc() -> SrcLocV {
    SrcLocV { filename: "(no file)"@, line_num: 0, col_num: 0 }
}

/// The value of the global variable `var`, if there is one.
pub open spec fn global_value(
    symbols: Seq<Seq<Seq<char>>>,
    rt: RuntimeV,
    var: Seq<char>,
) -> Option<Value> {
    match lookup(symbols, var) {
        Some((vi, ei)) => match env_get(rt.env, GLOBAL, vi as usize, ei as usize) {
            Ok(v) => Some(v),
            Err(_) => None,
        },
        None => None,
    }
}

/// The global variables that a new interpreter holds, in the order in
/// which they are defined: the constants and the basic functions.
pub open spec fn builtins() -> Seq<(Seq<char>, Value)> {
    seq![
        ("null"@, Value::Null),
        ("true"@, Value::Bool(true)),
        ("false"@, Value::Bool(false)),
        ("printf"@, Value::NativeFunc(native::NativeFunc { index: native::FUNC_PRINTF })),
        ("error"@, Value::NativeFunc(native::NativeFunc { index: native::FUNC_ERROR })),
        ("dump_env"@, Value::NativeFunc(native::NativeFunc { index: native::FUNC_DUMP_ENV })),
        ("!"@, Value::NativeFunc(native::NativeFunc { index: native::FUNC_LOGIC_NOT })),
        ("=="@, Value::NativeFunc(native::NativeFunc { index: native::FUNC_CMP_EQ })),
        ("!="@, Value::NativeFunc(native::NativeFunc { index: native::FUNC_CMP_NE })),
        ("<"@, Value::NativeFunc(native::NativeFunc { index: native::FUNC_CMP_LT })),
        ("<="@, Value::NativeFunc(native::NativeFunc { index: native::FUNC_CMP_LE })),
        (">"@, Value::NativeFunc(native::NativeFunc { index: native::FUNC_CMP_GT })),
        (">="@, Value::NativeFunc(native::NativeFunc { index: native::FUNC_CMP_GE })),
        ("+"@, Value::NativeFunc(native::NativeFunc { index: native::FUNC_NUM_ADD })),
        ("-"@, Value::NativeFunc(native::NativeFunc { index: native::FUNC_NUM_SUB })),
        ("*"@, Value::NativeFunc(native::NativeFunc { index: native::FUNC_NUM_MUL })),
        ("/"@, Value::NativeFunc(native::NativeFunc { index: native::FUNC_NUM_DIV })),
        ("^"@, Value::NativeFunc(native::NativeFunc { index: native::FUNC_NUM_POW })),
        ("%"@, Value::NativeFunc(native::NativeFunc { index: native::FUNC_NUM_MOD })),
    ]
}

/// The global names and the frames after the first `n` variables of
/// `globals` were set, in order.
pub open spec fn with_globals(
    symbols: Seq<Seq<Seq<char>>>,
    env: Seq<env::FrameV>,
    globals: Seq<(Seq<char>, Value)>,
    n: nat,
) -> (Seq<Seq<Seq<char>>>, Seq<env::FrameV>)
    decreases n,
{
    if n == 0 || n > globals.len() {
        (symbols, env)
    } else {
        let (s, e) = with_globals(symbols, env, globals, (n - 1) as nat);
        (
            with_name(s, globals[n - 1].0),
            define_global(e, slot_after_add(s, globals[n - 1].0) as usize, globals[n - 1].1),
        )
    }
}

/// The symbols after every name of `names` was declared, in order.
pub open spec fn declare_all(symbols: Seq<Seq<Seq<char>>>, funcs: Seq<ast::NamedFuncDef>, n: nat)
    -> Seq<Seq<Seq<char>>>
    decreases n,
{
    if n == 0 || n > funcs.len() {
        symbols
    } else {
        with_name(declare_all(symbols, funcs, (n - 1) as nat), funcs[n - 1].name@)
    }
}

/// The environment after the global variable of every name of `funcs` was
/// set to null, in order.
pub open spec fn declare_env(
    env: Seq<env::FrameV>,
    symbols: Seq<Seq<Seq<char>>>,
    funcs: Seq<ast::NamedFuncDef>,
    n: nat,
) -> Seq<env::FrameV>
    decreases n,
{
    if n == 0 || n > funcs.len() {
        env
    } else {
        define_global(
            declare_env(env, symbols, funcs, (n - 1) as nat),
            slot_after_add(declare_all(symbols, funcs, (n - 1) as nat), funcs[n - 1].name@) as usize,
            Value::Null,
        )
    }
}

/// The first error of loading the first `n` functions of `funcs` for the
/// evaluator: a function does not resolve in the scopes `symbols`, or no
/// closure identity is left for it.
pub open spec fn load_error(
    funcs: Seq<ast::NamedFuncDef>,
    n: nat,
    symbols: Seq<Seq<Seq<char>>>,
    next_id: u64,
) -> Option<parser::errors::ParseErrorV>
    decreases n,
{
    if n == 0 || n > funcs.len() {
        None
    } else {
        match load_error(funcs, (n - 1) as nat, symbols, next_id) {
            Some(e) => Some(e),
            None => match ast::resolve::func_error(*funcs[n - 1].def, symbols, seq![false]) {
                Some(e) => Some(e),
                None => if next_id + (n - 1) >= u64::MAX {
                    Some(
                        parser::errors::ParseErrorV::at(
                            funcs[n - 1].def.loc@,
                            "out of closure identities"@,
                        ),
                    )
                } else {
                    None
                },
            },
        }
    }
}

/// The environment after the names of the first `n` functions of `funcs`
/// were bound, in order, to closures of the functions `outs` over the
/// global frame, with consecutive identities from `next_id` on.
pub open spec fn bind_closures(
    env: Seq<env::FrameV>,
    funcs: Seq<ast::NamedFuncDef>,
    symbols: Seq<Seq<Seq<char>>>,
    next_id: u64,
    outs: Seq<Rc<exec::FuncDef>>,
    n: nat,
) -> Seq<env::FrameV>
    decreases n,
{
    if n == 0 || n > funcs.len() || n > outs.len() {
        env
    } else {
        define_global(
            bind_closures(env, funcs, symbols, next_id, outs, (n - 1) as nat),
            slot_after_add(symbols, funcs[n - 1].name@) as usize,
            Value::ASTClosure(
                exec::Closure { func: outs[n - 1], env: GLOBAL, id: (next_id + n - 1) as u64 },
            ),
        )
    }
}

/// Whether `outs` are the resolutions of the functions of `funcs`, one for
/// one, in the scopes `symbols`.
pub open spec fn all_resolved(
    funcs: Seq<ast::NamedFuncDef>,
    symbols: Seq<Seq<Seq<char>>>,
    outs: Seq<Rc<exec::FuncDef>>,
) -> bool {
    outs.len() == funcs.len() && forall|k: int|
        0 <= k < funcs.len() ==> ast::resolve::resolved_func(
            *(#[trigger] funcs[k]).def,
            symbols,
            seq![false],
            *outs[k],
        )
}

/// The outcome of compiling the first `n` functions of `funcs`: the
/// program, the environment, the next closure identity, and the error that
/// stopped the compilation. Each function is compiled, its address is
/// labelled with its name, and its name is bound to a closure of the code
/// over the global frame.
pub open spec fn compile_all(
    funcs: Seq<ast::NamedFuncDef>,
    n: nat,
    symbols: Seq<Seq<Seq<char>>>,
    p: bytecode::gen::ProgramV,
    env: Seq<env::FrameV>,
    next_id: u64,
) -> (bytecode::gen::ProgramV, Seq<env::FrameV>, u64, Option<parser::errors::ParseErrorV>)
    decreases n,
{
    if n == 0 || n > funcs.len() {
        (p, env, next_id, None)
    } else {
        let (pa, enva, ida, ea) = compile_all(funcs, (n - 1) as nat, symbols, p, env, next_id);
        if ea is Some {
            (pa, enva, ida, ea)
        } else {
            let f = funcs[n - 1];
            let (pb, eb) = ast::codegen::compile_func(*f.def, symbols, pa);
            if eb is Some {
                (pb, enva, ida, eb)
            } else {
                let pc = bytecode::gen::ProgramV {
                    labels: pb.labels.insert(pa.addr(), f.name@),
                    ..pb
                };
                if ida == u64::MAX {
                    (
                        pc,
                        enva,
                        ida,
                        Some(
                            parser::errors::ParseErrorV::at(
                                f.def.loc@,
                                "out of closure identities"@,
                            ),
                        ),
                    )
                } else {
                    (
                        pc,
                        define_global(
                            enva,
                            slot_after_add(symbols, f.name@) as usize,
                            Value::BCClosure(
                                bytecode::Closure {
                                    addr: pa.addr(),
                                    num_params: f.def.params@.len() as usize,
                                    env: GLOBAL,
                                    id: ida,
                                },
                            ),
                        ),
                        (ida + 1) as u64,
                        None,
                    )
                }
            }
        }
    }
}

impl<H: NativeHost> Bleep<H> {
    /// The state of the scripts.
    pub closed spec fn runtime(&self) -> RuntimeV {
        self.rt@
    }

    /// The global names.
    pub closed spec fn symbols(&self) -> Seq<Seq<Seq<char>>> {
        self.sym_tab@
    }

    /// The compiled code.
    pub closed spec fn program(&self) -> bytecode::gen::ProgramV {
        self.bytecode@
    }

    /// The host.
    pub closed spec fn host(&self) -> H {
        self.host
    }

    /// The functions that were loaded for the evaluator, as they were
    /// parsed, in the order in which they were loaded.
    pub closed spec fn listing(&self) -> Seq<ast::NamedFuncDef> {
        self.funcs@
    }

    /// The budget of a call: the most steps that the machine takes, and
    /// the budget that the evaluator starts a call with.
    pub closed spec fn limit(&self) -> u64 {
        self.limit
    }

    /// Constructs a new script interpreter.
    ///
    /// The environment will be prepared with the basic functions, of which
    /// the host supplies `printf`, `dump_env` and the arithmetic.
    pub fn new(host: H) -> (r: Bleep<H>)
        ensures
            r.host() == host,
            r.limit() == u64::MAX,
            r.listing() == Seq::<ast::NamedFuncDef>::empty(),
            r.program() == (bytecode::gen::ProgramV {
                instr: Seq::empty(),
                literals: seq![Value::Null],
                while_ctx: Seq::empty(),
                func_ctx: Seq::empty(),
                env_level: 0,
                labels: Map::empty(),
            }),
            r.runtime().heap == (heap::HeapV { vecs: Seq::empty(), maps: Seq::empty(), next_id: 0 }),
            (r.symbols(), r.runtime().env) == with_globals(
                seq![Seq::<Seq<char>>::empty()],
                seq![env::FrameV { parent: None, vals: Seq::<Value>::empty() }],
                builtins(),
                builtins().len(),
            ),
    {
        let mut bleep = Bleep {
            rt: Runtime::new(),
            sym_tab: SymTab::new_global(),
            bytecode: bytecode::Program::new(),
            funcs: Vec::new(),
            host,
            limit: u64::MAX,
        };
        bleep.init_env();
        bleep
    }

    /// Sets the budget of a call.
    pub fn set_limit(&mut self, limit: u64)
        ensures
            final(self).limit() == limit,
            final(self).listing() == old(self).listing(),
            final(self).runtime() == old(self).runtime(),
            final(self).symbols() == old(self).symbols(),
            final(self).program() == old(self).program(),
            final(self).host() == old(self).host(),
    {
        self.limit = limit;
    }

    /// Whether a script with the outcome `want` of its parsing, loaded with
    /// the result `r`, makes `after` of the interpreter `before`. An error
    /// of the parsing is returned and leaves the interpreter as it is. The
    /// functions of the script are compiled where `compile` is set, and
    /// else made callable through the evaluator.
    pub open spec fn scripted(
        before: Self,
        want: Result<Seq<NamedFuncV>, ParseErrorV>,
        compile: bool,
        r: Result<(), ParseError>,
        after: Self,
    ) -> bool {
        match want {
            Err(e) => r is Err && r->Err_0@ == e && after == before,
            Ok(fv) => exists|fs: Seq<ast::NamedFuncDef>|
                {
                    &&& #[trigger] named_views(fs) == fv
                    &&& if compile {
                        Self::compiled(before, fs, r, after)
                    } else {
                        Self::loaded(before, fs, r, after)
                    }
                },
        }
    }

    /// Loads a script from the given string.
    ///
    /// Scripts loaded from strings can't contain `include` commands,
    /// because the string is the only available source: the string is
    /// what opening the first source gives, and every other source is
    /// refused.
    pub fn load_string(&mut self, string: &str) -> (r: Result<(), ParseError>)
        ensures
            exists|sx: Syntax|
                {
                    &&& is_language(sx)
                    &&& Self::scripted(
                        *old(self),
                        #[trigger] program(
                            old(self).host(),
                            sx,
                            "(string)"@,
                            MAX_SOURCES as nat,
                            string_sources(string@, MAX_SOURCES as nat),
                        ),
                        false,
                        r,
                        *final(self),
                    )
                },
    {
        let ghost max = MAX_SOURCES as nat;
        proof {
            crate::loader::lemma_string_is_file();
        }
        let opener = StringInputOpener::for_string(string);
        let r = self.load_user("(string)", opener);
        proof {
            let name = "(string)"@;
            let (sx, opened) = choose|sx: Syntax, opened: Openings|
                {
                    &&& is_language(sx)
                    &&& #[trigger] parsed_from(
                        old(self).host(),
                        sx,
                        name,
                        opener,
                        opened,
                        program(old(self).host(), sx, name, max, opened),
                    )
                    &&& Self::scripted(
                        *old(self),
                        program(old(self).host(), sx, name, max, opened),
                        false,
                        r,
                        *self,
                    )
                };
            let rest = Seq::new((max - opened.len()) as nat, |i: int| refusal());
            assert(opened + rest =~= string_sources(string@, max));
            assert(program(old(self).host(), sx, name, max, opened + rest) == program(
                old(self).host(),
                sx,
                name,
                max,
                opened,
            ));
        }
        r
    }

    /// Parses the script in `source` and hands its functions on.
    fn read_user<S: InputSource>(&self, source: &str, source_opener: S) -> (r: Result<
        Vec<ast::NamedFuncDef>,
        ParseError,
    >)
        ensures
            exists|sx: Syntax, opened: Openings|
                {
                    &&& is_language(sx)
                    &&& #[trigger] parsed_from(
                        self.host(),
                        sx,
                        source@,
                        source_opener,
                        opened,
                        program(self.host(), sx, source@, MAX_SOURCES as nat, opened),
                    )
                    &&& program(self.host(), sx, source@, MAX_SOURCES as nat, opened) == listed(r)
                },
    {
        let ghost max = MAX_SOURCES as nat;
        let mut loader = BleepLoader::new();
        let res = loader.load_user(source, source_opener, &self.host);
        let ghost (sx, opened) = choose|sx: Syntax, opened: Openings|
            {
                &&& is_language(sx)
                &&& #[trigger] parsed_from(
                    self.host,
                    sx,
                    source@,
                    source_opener,
                    opened,
                    program(self.host, sx, source@, max, opened),
                )
                &&& load_is(
                    Seq::empty(),
                    loader@,
                    res,
                    program(self.host, sx, source@, max, opened),
                )
            };
        let ghost all = loader@;
        assert(all.subrange(0, all.len() as int) =~= all);
        let r = match res {
            Ok(()) => Ok(loader.get_functions()),
            Err(e) => Err(e),
        };
        assert(program(self.host(), sx, source@, max, opened) == listed(r));
        r
    }

    /// Loads a script from the given source, using the given source
    /// opener.
    ///
    /// The source opener will be used to open the given source and any
    /// other sources included by the script.
    pub fn load_user<S: InputSource>(&mut self, source: &str, source_opener: S) -> (r: Result<
        (),
        ParseError,
    >)
        ensures
            exists|sx: Syntax, opened: Openings|
                {
                    &&& is_language(sx)
                    &&& #[trigger] parsed_from(
                        old(self).host(),
                        sx,
                        source@,
                        source_opener,
                        opened,
                        program(old(self).host(), sx, source@, MAX_SOURCES as nat, opened),
                    )
                    &&& Self::scripted(
                        *old(self),
                        program(old(self).host(), sx, source@, MAX_SOURCES as nat, opened),
                        false,
                        r,
                        *final(self),
                    )
                },
    {
        let ghost max = MAX_SOURCES as nat;
        let res = self.read_user(source, source_opener);
        let ghost (sx, opened) = choose|sx: Syntax, opened: Openings|
            {
                &&& is_language(sx)
                &&& #[trigger] parsed_from(
                    self.host(),
                    sx,
                    source@,
                    source_opener,
                    opened,
                    program(self.host(), sx, source@, max, opened),
                )
                &&& program(self.host(), sx, source@, max, opened) == listed(res)
            };
        let r = match res {
            Ok(funcs) => {
                let ghost fs = funcs@;
                let r = self.load_functions(funcs);
                assert(named_views(fs) == named_views(fs));
                r
            },
            Err(e) => Err(e),
        };
        assert(Self::scripted(
            *old(self),
            program(old(self).host(), sx, source@, max, opened),
            false,
            r,
            *self,
        ));
        r
    }

    /// Whether `load_functions` with `ast_funcs`, returning `r`, makes
    /// `after` of the interpreter `before`.
    pub open spec fn loaded(
        before: Self,
        ast_funcs: Seq<ast::NamedFuncDef>,
        r: Result<(), ParseError>,
        after: Self,
    ) -> bool {
        &&& after.host() == before.host()
        &&& after.limit() == before.limit()
        &&& after.program() == before.program()
        &&& after.symbols() == declare_all(before.symbols(), ast_funcs, ast_funcs.len())
        &&& match r {
            Ok(_) => load_error(
                ast_funcs,
                ast_funcs.len(),
                after.symbols(),
                before.runtime().heap.next_id,
            ) is None,
            Err(e) => load_error(
                ast_funcs,
                ast_funcs.len(),
                after.symbols(),
                before.runtime().heap.next_id,
            ) == Some(e@),
        }
        &&& r is Ok ==> exists|outs: Seq<Rc<exec::FuncDef>>|
            all_resolved(ast_funcs, after.symbols(), outs) && after.runtime().env
                == bind_closures(
                declare_env(
                    before.runtime().env,
                    before.symbols(),
                    ast_funcs,
                    ast_funcs.len(),
                ),
                ast_funcs,
                after.symbols(),
                before.runtime().heap.next_id,
                outs,
                ast_funcs.len(),
            )
        &&& r is Ok ==> after.runtime().heap == (heap::HeapV {
            next_id: (before.runtime().heap.next_id + ast_funcs.len()) as u64,
            ..before.runtime().heap
        })
        &&& r is Ok ==> after.listing() == before.listing() + ast_funcs
        &&& r is Err ==> after.listing() == before.listing()
        &&& r is Err ==> exists|k: nat, outs: Seq<Rc<exec::FuncDef>>|
            {
                &&& k < ast_funcs.len()
                &&& outs.len() == k
                &&& load_error(ast_funcs, k, after.symbols(), before.runtime().heap.next_id) is None
                &&& forall|j: int|
                    0 <= j < k ==> ast::resolve::resolved_func(
                        *(#[trigger] ast_funcs[j]).def,
                        after.symbols(),
                        seq![false],
                        *outs[j],
                    )
                &&& after.runtime().env == #[trigger] bind_closures(
                    declare_env(
                        before.runtime().env,
                        before.symbols(),
                        ast_funcs,
                        ast_funcs.len(),
                    ),
                    ast_funcs,
                    after.symbols(),
                    before.runtime().heap.next_id,
                    outs,
                    k,
                )
                &&& after.runtime().heap == (heap::HeapV {
                    next_id: (before.runtime().heap.next_id + k) as u64,
                    ..before.runtime().heap
                })
            }
    }

    /// Makes the functions of `ast_funcs` callable through the evaluator.
    ///
    /// All function names are declared before any function is resolved, so
    /// that functions can refer to each other regardless of the order in
    /// which they are defined. Then each function is resolved and its name
    /// is bound to a closure over the global frame.
    pub fn load_functions(&mut self, ast_funcs: Vec<ast::NamedFuncDef>) -> (r: Result<
        (),
        ParseError,
    >)
        ensures
            Self::loaded(*old(self), ast_funcs@, r, *final(self)),
    {
        let mut i: usize = 0;
        while i < ast_funcs.len()
            invariant
                i <= ast_funcs.len(),
                self.host() == old(self).host(),
                self.limit() == old(self).limit(),
                self.program() == old(self).program(),
                self.listing() == old(self).listing(),
                self.runtime().heap == old(self).runtime().heap,
                self.symbols() == declare_all(old(self).symbols(), ast_funcs@, i as nat),
                self.runtime().env == declare_env(
                    old(self).runtime().env,
                    old(self).symbols(),
                    ast_funcs@,
                    i as nat,
                ),
            decreases ast_funcs.len() - i,
        {
            self.set_var(ast_funcs[i].name.as_str(), Value::Null);
            i += 1;
        }
        let ghost declared = self.symbols();
        let ghost env0 = self.runtime().env;
        let ghost id0 = old(self).runtime().heap.next_id;
        let ghost mut outs: Seq<Rc<exec::FuncDef>> = Seq::empty();
        let mut k: usize = 0;
        while k < ast_funcs.len()
            invariant
                k <= ast_funcs.len(),
                self.host() == old(self).host(),
                self.limit() == old(self).limit(),
                self.program() == old(self).program(),
                self.listing() == old(self).listing(),
                self.symbols() == declared,
                declared == declare_all(old(self).symbols(), ast_funcs@, ast_funcs@.len()),
                id0 == old(self).runtime().heap.next_id,
                env0 == declare_env(
                    old(self).runtime().env,
                    old(self).symbols(),
                    ast_funcs@,
                    ast_funcs@.len(),
                ),
                load_error(ast_funcs@, k as nat, declared, id0) is None,
                id0 + k <= u64::MAX,
                self.runtime().heap == (heap::HeapV {
                    next_id: (id0 + k) as u64,
                    ..old(self).runtime().heap
                }),
                outs.len() == k,
                forall|j: int|
                    0 <= j < k ==> ast::resolve::resolved_func(
                        *(#[trigger] ast_funcs@[j]).def,
                        declared,
                        seq![false],
                        *outs[j],
                    ),
                self.runtime().env == bind_closures(env0, ast_funcs@, declared, id0, outs, k as nat),
            decreases ast_funcs.len() - k,
        {
            let mut st = State::new();
            let func = match ast_funcs[k].analyze(&mut self.sym_tab, &mut st) {
                Ok(f) => Rc::new(f),
                Err(e) => {
                    proof {
                        lemma_load_error_stays(
                            ast_funcs@,
                            (k + 1) as nat,
                            ast_funcs@.len(),
                            declared,
                            id0,
                        );
                    }
                    return Err(e);
                },
            };
            let ghost shared = func;
            let closure = match exec::FuncDef::eval(func, &mut self.rt, GLOBAL) {
                Ok(c) => c,
                Err(_) => {
                    proof {
                        lemma_load_error_stays(
                            ast_funcs@,
                            (k + 1) as nat,
                            ast_funcs@.len(),
                            declared,
                            id0,
                        );
                    }
                    return Err(
                        ParseError::new(ast_funcs[k].def.loc.clone(), "out of closure identities"),
                    );
                },
            };
            proof {
                lemma_declared_stays(old(self).symbols(), ast_funcs@, ast_funcs@.len(), k as int);
                let before = outs;
                outs = outs.push(shared);
                lemma_bind_same(env0, ast_funcs@, declared, id0, before, outs, k as nat);
            }
            self.set_var(ast_funcs[k].name.as_str(), closure);
            k += 1;
        }
        proof {
            assert(all_resolved(ast_funcs@, declared, outs));
        }
        let mut loaded = ast_funcs;
        self.funcs.append(&mut loaded);
        Ok(())
    }

    /// Calls the specified script function with the given arguments.
    ///
    /// The number of arguments must match the function definition, or an
    /// error will be returned.
    ///
    /// Returns the value returned by the function (`Value::Null` if the
    /// function didn't return a value), or any error encountered during
    /// execution.
    pub fn call_function(&mut self, func_name: &str, args: &[Value]) -> (r: Result<Value, RunError>)
        ensures
            final(self).host() == old(self).host(),
            final(self).limit() == old(self).limit(),
            final(self).listing() == old(self).listing(),
            final(self).program() == old(self).program(),
            final(self).symbols() == old(self).symbols(),
            (final(self).runtime(), res_view(r)) == match global_value(
                old(self).symbols(),
                old(self).runtime(),
                func_name@,
            ) {
                Some(Value::BCClosure(c)) => vm_call(
                    old(self).host(),
                    c,
                    args@,
                    host_loc(),
                    old(self).program().instr,
                    old(self).program().literals,
                    RunV {
                        ip: 0,
                        env: c.env,
                        env_stack: Seq::empty(),
                        val_stack: Seq::empty(),
                        ret_stack: Seq::empty(),
                        flag_true: false,
                    },
                    old(self).runtime(),
                    old(self).limit() as nat,
                    old(self).limit() as nat,
                ),
                Some(f) => call_value(
                    old(self).host(),
                    f,
                    args@,
                    old(self).runtime(),
                    GLOBAL,
                    old(self).limit() as nat,
                    host_loc(),
                ),
                None => (
                    old(self).runtime(),
                    Err(
                        RunErrorV::script(
                            host_loc(),
                            "function not found: '"@ + func_name@ + "'"@,
                        ),
                    ),
                ),
            },
    {
        let loc = SrcLoc::new("(no file)", 0, 0);
        match self.get_var(func_name) {
            Some(Value::BCClosure(c)) => bytecode::run_closure(
                &c,
                args,
                &loc,
                &self.bytecode,
                &mut self.rt,
                self.limit,
                self.limit,
                &self.host,
            ),
            Some(f) => exec::run_function(
                &f,
                args,
                &mut self.rt,
                GLOBAL,
                self.limit,
                &loc,
                &self.host,
            ),
            None => {
                let msg = join3("function not found: '", func_name, "'");
                Err(RunError::new_script(loc, msg.as_str()))
            },
        }
    }

    /// Sets the value of the given global variable to the given value.
    /// If the variable doesn't exist, it will be created.
    pub fn set_var(&mut self, var: &str, val: Value)
        ensures
            final(self).host() == old(self).host(),
            final(self).limit() == old(self).limit(),
            final(self).listing() == old(self).listing(),
            final(self).program() == old(self).program(),
            final(self).symbols() == with_name(old(self).symbols(), var@),
            final(self).runtime().heap == old(self).runtime().heap,
            final(self).runtime().env == define_global(
                old(self).runtime().env,
                slot_after_add(old(self).symbols(), var@) as usize,
                val,
            ),
    {
        let index = self.sym_tab.add_name(var);
        self.rt.env.set_global(index, val);
    }

    /// Returns the value of the given global variable, or `None` if the
    /// variable doesn't exist.
    pub fn get_var(&self, var: &str) -> (r: Option<Value>)
        ensures
            r == global_value(self.symbols(), self.runtime(), var@),
    {
        match self.sym_tab.get_name(var) {
            Some((vi, ei)) => {
                match self.rt.env.get_value(GLOBAL, vi, ei) {
                    Ok(v) => Some(v),
                    Err(_) => None,
                }
            },
            None => None,
        }
    }

    /// Compiles the script in the given source, using the given source
    /// opener, and makes its functions callable through the stack
    /// machine.
    pub fn compile_user<S: InputSource>(&mut self, source: &str, source_opener: S) -> (r: Result<
        (),
        ParseError,
    >)
        ensures
            exists|sx: Syntax, opened: Openings|
                {
                    &&& is_language(sx)
                    &&& #[trigger] parsed_from(
                        old(self).host(),
                        sx,
                        source@,
                        source_opener,
                        opened,
                        program(old(self).host(), sx, source@, MAX_SOURCES as nat, opened),
                    )
                    &&& Self::scripted(
                        *old(self),
                        program(old(self).host(), sx, source@, MAX_SOURCES as nat, opened),
                        true,
                        r,
                        *final(self),
                    )
                },
    {
        let ghost max = MAX_SOURCES as nat;
        let res = self.read_user(source, source_opener);
        let ghost (sx, opened) = choose|sx: Syntax, opened: Openings|
            {
                &&& is_language(sx)
                &&& #[trigger] parsed_from(
                    self.host(),
                    sx,
                    source@,
                    source_opener,
                    opened,
                    program(self.host(), sx, source@, max, opened),
                )
                &&& program(self.host(), sx, source@, max, opened) == listed(res)
            };
        let r = match res {
            Ok(funcs) => {
                let ghost fs = funcs@;
                let r = self.compile_functions(funcs);
                assert(named_views(fs) == named_views(fs));
                r
            },
            Err(e) => Err(e),
        };
        assert(Self::scripted(
            *old(self),
            program(old(self).host(), sx, source@, max, opened),
            true,
            r,
            *self,
        ));
        r
    }

    /// Whether `compile_functions` with `ast_funcs`, returning `r`, makes
    /// `after` of the interpreter `before`.
    pub open spec fn compiled(
        before: Self,
        ast_funcs: Seq<ast::NamedFuncDef>,
        r: Result<(), ParseError>,
        after: Self,
    ) -> bool {
        &&& after.host() == before.host()
        &&& after.limit() == before.limit()
        &&& after.listing() == before.listing()
        &&& after.symbols() == declare_all(before.symbols(), ast_funcs, ast_funcs.len())
        &&& ({
            let out = compile_all(
                ast_funcs,
                ast_funcs.len(),
                after.symbols(),
                before.program(),
                declare_env(
                    before.runtime().env,
                    before.symbols(),
                    ast_funcs,
                    ast_funcs.len(),
                ),
                before.runtime().heap.next_id,
            );
            &&& after.program() == out.0
            &&& after.runtime().env == out.1
            &&& after.runtime().heap == (heap::HeapV {
                next_id: out.2,
                ..before.runtime().heap
            })
            &&& match r {
                Ok(_) => out.3 is None,
                Err(e) => out.3 == Some(e@),
            }
        })
    }

    /// Compiles the functions of `ast_funcs` and binds each name to a
    /// closure of the compiled code over the global frame. All names are
    /// declared before any function is compiled.
    pub fn compile_functions(&mut self, ast_funcs: Vec<ast::NamedFuncDef>) -> (r: Result<
        (),
        ParseError,
    >)
        ensures
            Self::compiled(*old(self), ast_funcs@, r, *final(self)),
    {
        let mut i: usize = 0;
        while i < ast_funcs.len()
            invariant
                i <= ast_funcs.len(),
                self.host() == old(self).host(),
                self.limit() == old(self).limit(),
                self.listing() == old(self).listing(),
                self.program() == old(self).program(),
                self.runtime().heap == old(self).runtime().heap,
                self.symbols() == declare_all(old(self).symbols(), ast_funcs@, i as nat),
                self.runtime().env == declare_env(
                    old(self).runtime().env,
                    old(self).symbols(),
                    ast_funcs@,
                    i as nat,
                ),
            decreases ast_funcs.len() - i,
        {
            self.set_var(ast_funcs[i].name.as_str(), Value::Null);
            i += 1;
        }
        let ghost declared = self.symbols();
        let ghost env0 = self.runtime().env;
        let ghost id0 = old(self).runtime().heap.next_id;
        let ghost p0 = old(self).program();
        let mut k: usize = 0;
        while k < ast_funcs.len()
            invariant
                k <= ast_funcs.len(),
                self.host() == old(self).host(),
                self.limit() == old(self).limit(),
                self.listing() == old(self).listing(),
                self.symbols() == declared,
                declared == declare_all(old(self).symbols(), ast_funcs@, ast_funcs@.len()),
                id0 == old(self).runtime().heap.next_id,
                p0 == old(self).program(),
                env0 == declare_env(
                    old(self).runtime().env,
                    old(self).symbols(),
                    ast_funcs@,
                    ast_funcs@.len(),
                ),
                compile_all(ast_funcs@, k as nat, declared, p0, env0, id0) == (
                    self.program(),
                    self.runtime().env,
                    self.runtime().heap.next_id,
                    None::<parser::errors::ParseErrorV>,
                ),
                self.runtime().heap == (heap::HeapV {
                    next_id: self.runtime().heap.next_id,
                    ..old(self).runtime().heap
                }),
            decreases ast_funcs.len() - k,
        {
            proof {
                lemma_compile_all_stops(
                    ast_funcs@,
                    (k + 1) as nat,
                    ast_funcs@.len(),
                    declared,
                    p0,
                    env0,
                    id0,
                );
            }
            let (addr, n_params) = match ast_funcs[k].compile(
                &mut self.sym_tab,
                &mut self.bytecode,
            ) {
                Ok(compiled) => compiled,
                Err(e) => {
                    return Err(e);
                },
            };
            self.bytecode.add_label(addr, ast_funcs[k].name.as_str());
            let id = match self.rt.heap.fresh_id() {
                Some(id) => id,
                None => {
                    return Err(
                        ParseError::new(ast_funcs[k].def.loc.clone(), "out of closure identities"),
                    );
                },
            };
            proof {
                lemma_declared_stays(old(self).symbols(), ast_funcs@, ast_funcs@.len(), k as int);
            }
            self.set_var(
                ast_funcs[k].name.as_str(),
                Value::BCClosure(bytecode::Closure::new(addr, n_params, GLOBAL, id)),
            );
            k += 1;
        }
        Ok(())
    }

    /// Defines the constants and the basic functions.
    fn init_env(&mut self)
        ensures
            final(self).host() == old(self).host(),
            final(self).limit() == old(self).limit(),
            final(self).listing() == old(self).listing(),
            final(self).program() == old(self).program(),
            final(self).runtime().heap == old(self).runtime().heap,
            (final(self).symbols(), final(self).runtime().env) == with_globals(
                old(self).symbols(),
                old(self).runtime().env,
                builtins(),
                builtins().len(),
            ),
    {
        let ghost s0 = self.symbols();
        let ghost e0 = self.runtime().env;
        assert((self.symbols(), self.runtime().env) == with_globals(s0, e0, builtins(), 0));
        self.set_var("null", Value::Null);
        assert((self.symbols(), self.runtime().env) == with_globals(s0, e0, builtins(), 1));
        self.set_var("true", Value::Bool(true));
        assert((self.symbols(), self.runtime().env) == with_globals(s0, e0, builtins(), 2));
        self.set_var("false", Value::Bool(false));
        assert((self.symbols(), self.runtime().env) == with_globals(s0, e0, builtins(), 3));
        self.set_var("printf", Value::new_native_func(native::FUNC_PRINTF));
        assert((self.symbols(), self.runtime().env) == with_globals(s0, e0, builtins(), 4));
        self.set_var("error", Value::new_native_func(native::FUNC_ERROR));
        assert((self.symbols(), self.runtime().env) == with_globals(s0, e0, builtins(), 5));
        self.set_var("dump_env", Value::new_native_func(native::FUNC_DUMP_ENV));
        assert((self.symbols(), self.runtime().env) == with_globals(s0, e0, builtins(), 6));
        self.set_var("!", Value::new_native_func(native::FUNC_LOGIC_NOT));
        assert((self.symbols(), self.runtime().env) == with_globals(s0, e0, builtins(), 7));
        self.set_var("==", Value::new_native_func(native::FUNC_CMP_EQ));
        assert((self.symbols(), self.runtime().env) == with_globals(s0, e0, builtins(), 8));
        self.set_var("!=", Value::new_native_func(native::FUNC_CMP_NE));
        assert((self.symbols(), self.runtime().env) == with_globals(s0, e0, builtins(), 9));
        self.set_var("<", Value::new_native_func(native::FUNC_CMP_LT));
        assert((self.symbols(), self.runtime().env) == with_globals(s0, e0, builtins(), 10));
        self.set_var("<=", Value::new_native_func(native::FUNC_CMP_LE));
        assert((self.symbols(), self.runtime().env) == with_globals(s0, e0, builtins(), 11));
        self.set_var(">", Value::new_native_func(native::FUNC_CMP_GT));
        assert((self.symbols(), self.runtime().env) == with_globals(s0, e0, builtins(), 12));
        self.set_var(">=", Value::new_native_func(native::FUNC_CMP_GE));
        assert((self.symbols(), self.runtime().env) == with_globals(s0, e0, builtins(), 13));
        self.set_var("+", Value::new_native_func(native::FUNC_NUM_ADD));
        assert((self.symbols(), self.runtime().env) == with_globals(s0, e0, builtins(), 14));
        self.set_var("-", Value::new_native_func(native::FUNC_NUM_SUB));
        assert((self.symbols(), self.runtime().env) == with_globals(s0, e0, builtins(), 15));
        self.set_var("*", Value::new_native_func(native::FUNC_NUM_MUL));
        assert((self.symbols(), self.runtime().env) == with_globals(s0, e0, builtins(), 16));
        self.set_var("/", Value::new_native_func(native::FUNC_NUM_DIV));
        assert((self.symbols(), self.runtime().env) == with_globals(s0, e0, builtins(), 17));
        self.set_var("^", Value::new_native_func(native::FUNC_NUM_POW));
        assert((self.symbols(), self.runtime().env) == with_globals(s0, e0, builtins(), 18));
        self.set_var("%", Value::new_native_func(native::FUNC_NUM_MOD));
        assert((self.symbols(), self.runtime().env) == with_globals(s0, e0, builtins(), 19));
    }

    /// The frames and the shared objects.
    pub fn rt(&self) -> (r: &Runtime)
        ensures
            r@ == self.runtime(),
    {
        &self.rt
    }

    /// The global names.
    pub fn sym_tab(&self) -> (r: &SymTab)
        ensures
            r@ == self.symbols(),
    {
        &self.sym_tab
    }

    /// The compiled code.
    pub fn bytecode(&self) -> (r: &bytecode::Program)
        ensures
            r@ == self.program(),
    {
        &self.bytecode
    }

    /// The functions that were loaded for the evaluator, as they were
    /// parsed.
    pub fn funcs(&self) -> (r: &Vec<ast::NamedFuncDef>)
        ensures
            r@ == self.listing(),
    {
        &self.funcs
    }
}

/// A name that was declared stays declared: declaring it again leaves the
/// symbols as they are.
pub proof fn lemma_declared_stays(
    symbols: Seq<Seq<Seq<char>>>,
    funcs: Seq<ast::NamedFuncDef>,
    n: nat,
    k: int,
)
    requires
        0 <= k < n <= funcs.len(),
    ensures
        with_name(declare_all(symbols, funcs, n), funcs[k].name@) == declare_all(symbols, funcs, n),
    decreases n,
{
    let name = funcs[k].name@;
    if k < n - 1 {
        lemma_declared_stays(symbols, funcs, (n - 1) as nat, k);
    }
    let before = declare_all(symbols, funcs, (n - 1) as nat);
    let after = declare_all(symbols, funcs, n);
    lemma_with_name_has(before, funcs[n - 1].name@);
    if k < n - 1 {
        lemma_with_name_keeps(before, funcs[n - 1].name@, name);
    }
}

/// After a name was added, the innermost scope has it.
pub proof fn lemma_with_name_has(symbols: Seq<Seq<Seq<char>>>, name: Seq<char>)
    ensures
        with_name(with_name(symbols, name), name) == with_name(symbols, name),
{
    if symbols.len() > 0 {
        let last = symbols.last();
        let after = with_name(symbols, name);
        if sym_tab::slot_of(last, name, last.len()) is None {
            assert(after.last() == last.push(name));
            assert(sym_tab::slot_of(after.last(), name, after.last().len()) is Some);
        }
    }
}

/// Adding a name leaves every name that the innermost scope has in it.
pub proof fn lemma_with_name_keeps(symbols: Seq<Seq<Seq<char>>>, added: Seq<char>, name: Seq<char>)
    requires
        with_name(symbols, name) == symbols,
    ensures
        with_name(with_name(symbols, added), name) == with_name(symbols, added),
{
    if symbols.len() > 0 {
        let last = symbols.last();
        let after = with_name(symbols, added);
        if sym_tab::slot_of(last, added, last.len()) is None {
            assert(after.last() == last.push(added));
            if sym_tab::slot_of(last, name, last.len()) is None {
                assert(symbols.update(symbols.len() - 1, last.push(name)) == symbols);
                assert(symbols.update(symbols.len() - 1, last.push(name))[symbols.len() - 1]
                    == last.push(name));
                assert(last.push(name).len() == last.len() + 1);
                assert(false);
            }
            lemma_slot_grows(last, added, name, last.len());
        }
    }
}

/// A name that has a slot among the names of a scope has one after another
/// name was added.
pub proof fn lemma_slot_grows(names: Seq<Seq<char>>, added: Seq<char>, name: Seq<char>, n: nat)
    requires
        n <= names.len(),
        sym_tab::slot_of(names, name, n) is Some,
    ensures
        sym_tab::slot_of(names.push(added), name, names.len() + 1) is Some,
    decreases names.len() - n,
{
    let after = names.push(added);
    if added != name {
        lemma_slot_same(names, after, name, names.len());
        lemma_slot_more(names, name, n, names.len());
    }
}

/// The slot of a name among the first `n` names depends on those names
/// alone.
pub proof fn lemma_slot_same(a: Seq<Seq<char>>, b: Seq<Seq<char>>, name: Seq<char>, n: nat)
    requires
        n <= a.len(),
        n <= b.len(),
        forall|i: int| 0 <= i < n ==> a[i] == b[i],
    ensures
        sym_tab::slot_of(a, name, n) == sym_tab::slot_of(b, name, n),
    decreases n,
{
    if n > 0 {
        lemma_slot_same(a, b, name, (n - 1) as nat);
    }
}

/// A name that has a slot among the first `n` names has one among the
/// first `m`, for every `m` from `n` on.
pub proof fn lemma_slot_more(names: Seq<Seq<char>>, name: Seq<char>, n: nat, m: nat)
    requires
        n <= m <= names.len(),
        sym_tab::slot_of(names, name, n) is Some,
    ensures
        sym_tab::slot_of(names, name, m) is Some,
    decreases m,
{
    if n < m {
        lemma_slot_more(names, name, n, (m - 1) as nat);
    }
}

/// An error among the first `n` functions is the first error of any
/// longer part of the functions.
pub proof fn lemma_load_error_stays(
    funcs: Seq<ast::NamedFuncDef>,
    n: nat,
    m: nat,
    symbols: Seq<Seq<Seq<char>>>,
    next_id: u64,
)
    requires
        n <= m <= funcs.len(),
    ensures
        load_error(funcs, n, symbols, next_id) is Some ==> load_error(funcs, m, symbols, next_id)
            == load_error(funcs, n, symbols, next_id),
    decreases m,
{
    if n < m {
        lemma_load_error_stays(funcs, n, (m - 1) as nat, symbols, next_id);
    }
}

/// What the first `n` names are bound to depends on the first `n`
/// functions alone.
pub proof fn lemma_bind_same(
    env: Seq<env::FrameV>,
    funcs: Seq<ast::NamedFuncDef>,
    symbols: Seq<Seq<Seq<char>>>,
    next_id: u64,
    a: Seq<Rc<exec::FuncDef>>,
    b: Seq<Rc<exec::FuncDef>>,
    n: nat,
)
    requires
        n <= a.len(),
        n <= b.len(),
        forall|i: int| 0 <= i < n ==> a[i] == b[i],
    ensures
        bind_closures(env, funcs, symbols, next_id, a, n) == bind_closures(
            env,
            funcs,
            symbols,
            next_id,
            b,
            n,
        ),
    decreases n,
{
    if n > 0 {
        lemma_bind_same(env, funcs, symbols, next_id, a, b, (n - 1) as nat);
    }
}

/// Once a function has failed to compile, the functions after it are not
/// compiled.
pub proof fn lemma_compile_all_stops(
    funcs: Seq<ast::NamedFuncDef>,
    n: nat,
    m: nat,
    symbols: Seq<Seq<Seq<char>>>,
    p: bytecode::gen::ProgramV,
    env: Seq<env::FrameV>,
    next_id: u64,
)
    requires
        n <= m <= funcs.len(),
    ensures
        compile_all(funcs, n, symbols, p, env, next_id).3 is Some ==> compile_all(
            funcs,
            m,
            symbols,
            p,
            env,
            next_id,
        ) == compile_all(funcs, n, symbols, p, env, next_id),
    decreases m,
{
    if n < m {
        lemma_compile_all_stops(funcs, n, (m - 1) as nat, symbols, p, env, next_id);
    }
}

/// Whether the body of every function of `funcs` is made of plain
/// statements: expression statements, blocks that declare one variable at
/// most, `if`, `while`, `break` and `return`, with expressions that the
/// compiler has instructions for.
pub open spec fn all_plain(funcs: Seq<ast::NamedFuncDef>) -> bool {
    forall|j: int| 0 <= j < funcs.len() ==> plain_block((#[trigger] funcs[j]).def.block.stmts@)
}

/// Compiling more functions of plain statements keeps what was compiled.
pub proof fn lemma_compile_all_keeps(
    funcs: Seq<ast::NamedFuncDef>,
    k: nat,
    n: nat,
    symbols: Seq<Seq<Seq<char>>>,
    p: bytecode::gen::ProgramV,
    env: Seq<env::FrameV>,
    next_id: u64,
)
    requires
        all_plain(funcs),
        k <= n <= funcs.len(),
        compile_all(funcs, n, symbols, p, env, next_id).3 is None,
        compile_all(funcs, n, symbols, p, env, next_id).0.instr.len() <= u32::MAX,
    ensures
        compile_all(funcs, k, symbols, p, env, next_id).3 is None,
        keeps(
            compile_all(funcs, k, symbols, p, env, next_id).0,
            compile_all(funcs, n, symbols, p, env, next_id).0,
        ),
    decreases n,
{
    if k < n {
        let before = compile_all(funcs, (n - 1) as nat, symbols, p, env, next_id);
        let f = funcs[n - 1];
        assert(plain_block(f.def.block.stmts@));
        let pb = ast::codegen::compile_func(unshared(f.def), symbols, before.0).0;
        lemma_func_keeps(unshared(f.def), symbols, before.0);
        lemma_compile_all_keeps(funcs, k, (n - 1) as nat, symbols, p, env, next_id);
    }
}

/// The backends agree on the functions of a script of plain statements.
///
/// Let the functions `funcs`, whose bodies are made of plain statements,
/// be compiled in the scopes `symbols` into a program that had null as
/// its literal 0, and let the program that came of it have fewer than
/// 2^26 - 1 instructions and at most 2^26 literals. Let `c` be a closure
/// of the resolution of one of the functions, whose frames and scopes fit
/// an instruction, and let a call of `c` with
/// `args` succeed in the evaluator. Then the call of the bytecode closure
/// of that function, made in the same frame, with the same arguments and
/// at least the budget of the evaluator, gives the same value and leaves
/// the script in the same state, provided that the machine is given steps
/// enough.
pub proof fn lemma_compiled_agrees<H: NativeHost>(
    host: H,
    funcs: Seq<ast::NamedFuncDef>,
    k: nat,
    symbols: Seq<Seq<Seq<char>>>,
    ctx: Seq<bool>,
    c: exec::Closure,
    p: bytecode::gen::ProgramV,
    env: Seq<env::FrameV>,
    next_id: u64,
    id: u64,
    args: Seq<Value>,
    loc: SrcLocV,
    m: RunV,
    rt: RuntimeV,
    depth: nat,
    run_depth: nat,
) -> (enough: nat)
    requires
        all_plain(funcs),
        k < funcs.len(),
        p.while_ctx.len() == 0,
        p.literals.len() > 0,
        p.literals[0] == Value::Null,
        compile_all(funcs, funcs.len(), symbols, p, env, next_id).3 is None,
        compile_all(funcs, funcs.len(), symbols, p, env, next_id).0.instr.len() < 0x03ff_ffff,
        compile_all(funcs, funcs.len(), symbols, p, env, next_id).0.literals.len() <= 0x0400_0000,
        small(symbols.push(sym_tab::names_view(funcs[k as int].def.params@))),
        shallow_block(funcs[k as int].def.block.stmts@, symbols.len() + 1),
        symbols.len() + 1 < 0x1000,
        ast::resolve::resolved_func(*funcs[k as int].def, symbols, ctx, unshared(c.func)),
        depth <= run_depth,
        apply(host, c, args, rt, depth, loc).1 is Ok,
    ensures
        forall|steps: nat|
            steps >= enough ==> #[trigger] vm_call(
                host,
                (bytecode::Closure {
                    addr: compile_all(funcs, k, symbols, p, env, next_id).0.addr(),
                    num_params: funcs[k as int].def.params@.len() as usize,
                    env: c.env,
                    id,
                }),
                args,
                loc,
                compile_all(funcs, funcs.len(), symbols, p, env, next_id).0.instr,
                compile_all(funcs, funcs.len(), symbols, p, env, next_id).0.literals,
                m,
                rt,
                steps,
                run_depth,
            ) == apply(host, c, args, rt, depth, loc),
{
    let n = funcs.len();
    let last = compile_all(funcs, n, symbols, p, env, next_id).0;
    let pk = compile_all(funcs, k, symbols, p, env, next_id).0;
    let next = compile_all(funcs, k + 1, symbols, p, env, next_id).0;
    let f = funcs[k as int];
    let q = ast::codegen::compile_func(unshared(f.def), symbols, pk).0;
    lemma_compile_all_keeps(funcs, k + 1, n, symbols, p, env, next_id);
    lemma_compile_all_keeps(funcs, k, k + 1, symbols, p, env, next_id);
    lemma_compile_all_keeps(funcs, 0, k, symbols, p, env, next_id);
    assert(compile_all(funcs, 0, symbols, p, env, next_id).0 == p);
    assert(next.instr == q.instr);
    assert(next.literals == q.literals);
    assert(plain_block(f.def.block.stmts@));
    assert(holds_func(last.instr, last.literals, pk, q)) by {
        assert forall|i: int| pk.instr.len() <= i < q.instr.len() implies last.instr[i]
            == q.instr[i] by {
            assert(last.instr[i] == next.instr[i]);
        }
        assert forall|i: int| pk.literals.len() <= i < q.literals.len() implies last.literals[i]
            == q.literals[i] by {
            assert(last.literals[i] == next.literals[i]);
        }
        assert(last.literals[0] == pk.literals[0]);
        assert(pk.literals[0] == p.literals[0]);
    }
    lemma_func_agrees(
        host,
        unshared(f.def),
        symbols,
        ctx,
        c,
        pk,
        last.instr,
        last.literals,
        id,
        args,
        loc,
        m,
        rt,
        depth,
        run_depth,
    )
}

} // verus!
