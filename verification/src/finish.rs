//! The end of generation: everything that was gathered is put together
//! as a header and an implementation.
use vstd::prelude::*;
use std::collections::BTreeSet;
use wit_bindgen_core::Files;
use crate::bindgen::Error;
use crate::bindgen::Failure;
use crate::drain::drained;
use crate::gen::GenState;
use crate::gen::Module;
use crate::gen::ModuleText;
use crate::gen::C;
use crate::ir::Interface;
use crate::text::concat2;
use crate::text::decimal;
use crate::text::decimal_string;
use crate::text::gather;
use crate::text::group_render;
use crate::text::kebab;
use crate::text::kebab_case;
use crate::text::render;
use crate::text::shouty_snake;
use crate::text::shouty_snake_case;
use crate::text::snake;
use crate::text::snake_case;
use crate::text::source_str;

verus! {

broadcast use group_render;

/// `wit_bindgen_core::Files`, the files that a generator hands out, by
/// name.
#[verifier::external_type_specification]
#[verifier::external_body]
pub struct ExFiles(wit_bindgen_core::Files);

/// The contents of the files, by name.
pub uninterp spec fn files_contents(files: Files) -> Map<Seq<char>, Seq<u8>>;

/// The files after `contents` were handed out under `name`: a new file,
/// or more of one that was there.
pub open spec fn with_file(files: Map<Seq<char>, Seq<u8>>, name: Seq<char>, contents: Seq<u8>) -> Map<
    Seq<char>,
    Seq<u8>,
> {
    if files.contains_key(name) {
        files.insert(name, files[name] + contents)
    } else {
        files.insert(name, contents)
    }
}

/// `Files::push`. A name that is new gets the contents; a name that is
/// there gets them behind what it has.
#[verifier::external_body]
pub(crate) fn files_push(files: &mut Files, name: &str, contents: &[u8])
    ensures
        files_contents(*final(files)) == with_file(files_contents(*old(files)), name@, contents@),
{
    files.push(name, contents)
}

/// What the header begins with.
pub open spec fn header_preamble(iface: Interface) -> Seq<Seq<char>> {
    seq!["#ifndef __BINDINGS_"@].push(shouty_snake_case(iface.name@)).push("_H\n                #define __BINDINGS_"@).push(shouty_snake_case(iface.name@)).push("_H\n                #ifdef __cplusplus\n                extern \"C\" {\n                #endif\n\n                #include <stdint.h>\n                #include <stdbool.h>\n            "@)
}

/// What ends the header.
pub open spec fn header_trailer() -> Seq<Seq<char>> {
    seq!["#ifdef __cplusplus\n        }\n        #endif\n        "@].push("#endif\n"@)
}

/// What the implementation begins with: it includes the header and
/// declares the linking symbol.
pub open spec fn impl_preamble(iface: Interface, linking_symbol: Seq<char>) -> Seq<Seq<char>> {
    seq!["#include <stdlib.h>\n                #include <"@].push(kebab_case(iface.name@)).push(".h>\n\n                extern void "@).push(linking_symbol).push("(void);\n            "@)
}

/// The allocator that the canonical ABI calls. It is weak, so that another
/// definition can take its place.
pub open spec fn intrinsics() -> Seq<char> {
    "\n            __attribute__((weak, export_name(\"cabi_realloc\")))\n            void *cabi_realloc(\n                void *ptr,\n                size_t orig_size,\n                size_t org_align,\n                size_t new_size\n            ) {\n                void *ret = realloc(ptr, new_size);\n                if (!ret)\n                    abort();\n                return ret;\n            }\n        "@
}

/// The string type and the declarations of its helpers.
pub open spec fn string_decls(iface: Interface) -> Seq<Seq<char>> {
    seq!["\n                    typedef struct {\n                        char *ptr;\n                        size_t len;\n                    } "@].push(snake_case(iface.name@)).push("_string_t;\n\n                    void "@).push(snake_case(iface.name@)).push("_string_set("@).push(snake_case(iface.name@)).push("_string_t *ret, const char *s);\n                    void "@).push(snake_case(iface.name@)).push("_string_dup("@).push(snake_case(iface.name@)).push("_string_t *ret, const char *s);\n                    void "@).push(snake_case(iface.name@)).push("_string_free("@).push(snake_case(iface.name@)).push("_string_t *ret);\n                "@)
}

/// The definitions of the helpers of the string type.
pub open spec fn string_defs(iface: Interface) -> Seq<Seq<char>> {
    seq!["\n                    void "@].push(snake_case(iface.name@)).push("_string_set("@).push(snake_case(iface.name@)).push("_string_t *ret, const char *s) {\n                        ret->ptr = (char*) s;\n                        ret->len = strlen(s);\n                    }\n\n                    void "@).push(snake_case(iface.name@)).push("_string_dup("@).push(snake_case(iface.name@)).push("_string_t *ret, const char *s) {\n                        ret->len = strlen(s);\n                        ret->ptr = cabi_realloc(NULL, 0, 1, ret->len);\n                        memcpy(ret->ptr, s, ret->len);\n                    }\n\n                    void "@).push(snake_case(iface.name@)).push("_string_free("@).push(snake_case(iface.name@)).push("_string_t *ret) {\n                        if (ret->len > 0) {\n                            free(ret->ptr);\n                        }\n                        ret->ptr = NULL;\n                        ret->len = 0;\n                    }\n                "@)
}

/// The static return area of the exports: present where this is no import
/// and a return area was asked for.
pub open spec fn ret_area(g: GenState) -> Seq<Seq<char>> {
    if !g.in_import && g.area_size > 0 {
        seq!["\n                    __attribute__((aligned("@].push(decimal(g.area_align)).push(")))\n                    static uint8_t RET_AREA["@).push(decimal(g.area_size)).push("];\n                "@)
    } else {
        Seq::empty()
    }
}

/// What the header holds for the type at place `k` of `order`: its
/// definition and the declaration of its destructor, unless it has no
/// definition or is private.
pub open spec fn type_h_arm(
    iface: Interface,
    types: Map<usize, Seq<char>>,
    private: Set<usize>,
    order: Seq<usize>,
) -> spec_fn(int) -> Seq<Seq<char>> {
    |k: int|
        if types.contains_key(order[k]) && !private.contains(order[k]) {
            seq![types[order[k]]] + iface.dtor_header(order[k])
        } else {
            Seq::empty()
        }
}

/// What the implementation holds for the type at place `k` of `order`:
/// its definition if it is private, else its destructor; nothing where it
/// has no definition.
pub open spec fn type_c_arm(
    iface: Interface,
    types: Map<usize, Seq<char>>,
    private: Set<usize>,
    order: Seq<usize>,
) -> spec_fn(int) -> Seq<Seq<char>> {
    |k: int|
        if types.contains_key(order[k]) {
            if private.contains(order[k]) {
                seq![types[order[k]]]
            } else {
                iface.dtor_impl(order[k])
            }
        } else {
            Seq::empty()
        }
}

/// The header parts of the first `n` functions of a module.
pub open spec fn module_h(m: ModuleText, n: nat) -> Seq<Seq<char>>
    decreases n,
{
    if n == 0 {
        Seq::empty()
    } else {
        module_h(m, (n - 1) as nat).push(m.funcs[n - 1].h)
    }
}

/// The implementation parts of the first `n` functions of a module.
pub open spec fn module_c(m: ModuleText, n: nat) -> Seq<Seq<char>>
    decreases n,
{
    if n == 0 {
        Seq::empty()
    } else {
        module_c(m, (n - 1) as nat).push(m.funcs[n - 1].c)
    }
}

/// The header parts of the functions of the first `n` modules.
pub open spec fn funcs_h(funcs: Seq<ModuleText>, n: nat) -> Seq<Seq<char>>
    decreases n,
{
    if n == 0 {
        Seq::empty()
    } else {
        funcs_h(funcs, (n - 1) as nat) + module_h(funcs[n - 1], funcs[n - 1].funcs.len())
    }
}

/// The implementation parts of the functions of the first `n` modules.
pub open spec fn funcs_c(funcs: Seq<ModuleText>, n: nat) -> Seq<Seq<char>>
    decreases n,
{
    if n == 0 {
        Seq::empty()
    } else {
        funcs_c(funcs, (n - 1) as nat) + module_c(funcs[n - 1], funcs[n - 1].funcs.len())
    }
}

/// The state after the anonymous types were drained, and the types that
/// are private: first the public types are printed, round by round; then
/// the private types take their place and are printed likewise, but for
/// those that have a definition by then.
pub open spec fn all_drained(g: GenState, iface: Interface) -> Result<(GenState, Set<usize>), Failure> {
    match drained(g, iface, false, iface.depth()) {
        Ok(first) => drained(
            GenState { public: first.0.private, private: Set::empty(), ..first.0 },
            iface,
            true,
            iface.depth(),
        ),
        Err(e) => Err(e),
    }
}

/// Nothing is left to define in state `g`, which finishing reached from
/// state `g0`: no anonymous type is due; every anonymous type that was due
/// has a definition; and so has every anonymous type that a definition
/// names which finishing printed.
pub open spec fn complete(iface: Interface, g0: GenState, g: GenState) -> bool {
    &&& g.public == Set::<usize>::empty()
    &&& g.private == Set::<usize>::empty()
    &&& forall|x: usize|
        g0.public.contains(x) || g0.private.contains(x) ==> g.types.contains_key(x)
    &&& forall|id: usize, x: usize|
        g.types.contains_key(id) && !g0.types.contains_key(id) && #[trigger] iface.child(id, x)
            ==> g.types.contains_key(x)
}

/// Pieces, or none.
pub open spec fn only_if(cond: bool, pieces: Seq<Seq<char>>) -> Seq<Seq<char>> {
    if cond {
        pieces
    } else {
        Seq::empty()
    }
}

/// What finishing adds to the header, given the state `d` after the
/// anonymous types were drained and the private types: the preamble, the
/// string type if it is needed, the definitions of the types that are not
/// private, each with the declaration of its destructor, in the order in
/// which the interface's definitions are printed, the function
/// declarations, and the trailer.
pub open spec fn finish_h(d: GenState, private: Set<usize>, iface: Interface) -> Seq<Seq<char>> {
    header_preamble(iface) + only_if(d.needs_string, string_decls(iface)) + gather(
        iface.topological().len(),
        type_h_arm(iface, d.types, private, iface.topological()),
    ) + funcs_h(d.funcs, d.funcs.len()) + header_trailer()
}

/// What finishing adds to the implementation: the preamble, the allocator,
/// the string helpers if they are needed, the definitions of the private
/// types and the destructors of the others, the static return area if there
/// is one, and the functions.
pub open spec fn finish_c(
    d: GenState,
    private: Set<usize>,
    iface: Interface,
    linking_symbol: Seq<char>,
) -> Seq<Seq<char>> {
    impl_preamble(iface, linking_symbol).push(intrinsics()) + only_if(
        d.needs_string,
        seq!["#include <string.h>\n"@] + string_defs(iface),
    ) + gather(
        iface.topological().len(),
        type_c_arm(iface, d.types, private, iface.topological()),
    ) + ret_area(d) + funcs_c(d.funcs, d.funcs.len())
}

/// The state in which finishing leaves the generator: both buffers hold
/// the whole of their file, and no function is filed any more.
pub open spec fn finished_state(
    g: GenState,
    d: GenState,
    private: Set<usize>,
    iface: Interface,
    linking_symbol: Seq<char>,
) -> GenState {
    GenState {
        h: render(g.h, finish_h(d, private, iface)),
        c: render(g.c, finish_c(d, private, iface, linking_symbol)),
        funcs: Seq::empty(),
        ..d
    }
}

/// The files after the implementation, the header and the object with the
/// component type were handed out under the interface's name in kebab case.
pub open spec fn finished_files(
    files: Map<Seq<char>, Seq<u8>>,
    iface: Interface,
    c: Seq<char>,
    h: Seq<char>,
    object: Seq<u8>,
) -> Map<Seq<char>, Seq<u8>> {
    with_file(
        with_file(
            with_file(files, kebab_case(iface.name@) + ".c"@, vstd::utf8::encode_utf8(c)),
            kebab_case(iface.name@) + ".h"@,
            vstd::utf8::encode_utf8(h),
        ),
        kebab_case(iface.name@) + "_component_type.o"@,
        object,
    )
}

impl C {
    /// Prints the allocator that the canonical ABI calls.
    pub fn print_intrinsics(&mut self)
        ensures
            final(self)@ == old(self)@.with_c(crate::text::push(old(self)@.c, intrinsics())),
    {
        // The allocator is weak so that another definition can take its
        // place.
        self.c("\n            __attribute__((weak, export_name(\"cabi_realloc\")))\n            void *cabi_realloc(\n                void *ptr,\n                size_t orig_size,\n                size_t org_align,\n                size_t new_size\n            ) {\n                void *ret = realloc(ptr, new_size);\n                if (!ret)\n                    abort();\n                return ret;\n            }\n        ");
    }

    /// Prints what the header and the implementation begin with.
    fn print_preamble(&mut self, iface: &Interface, linking_symbol: &str)
        ensures
            final(self)@ == old(self)@.with_h(render(old(self)@.h, header_preamble(*iface))).with_c(
                render(old(self)@.c, impl_preamble(*iface, linking_symbol@).push(intrinsics())),
            ),
    {
        let shouty = shouty_snake(iface.name.as_str());
        self.h("#ifndef __BINDINGS_");
        self.h(shouty.as_str());
        self.h("_H\n                #define __BINDINGS_");
        self.h(shouty.as_str());
        self.h("_H\n                #ifdef __cplusplus\n                extern \"C\" {\n                #endif\n\n                #include <stdint.h>\n                #include <stdbool.h>\n            ");
        let kebab_name = kebab(iface.name.as_str());
        self.c("#include <stdlib.h>\n                #include <");
        self.c(kebab_name.as_str());
        self.c(".h>\n\n                extern void ");
        self.c(linking_symbol);
        self.c("(void);\n            ");
        self.print_intrinsics();
    }

    /// Prints the string type and its helpers, if the string type is
    /// needed.
    fn print_string_helpers(&mut self, iface: &Interface)
        ensures
            final(self)@ == old(self)@.with_h(
                render(old(self)@.h, only_if(old(self)@.needs_string, string_decls(*iface))),
            ).with_c(
                render(
                    old(self)@.c,
                    only_if(
                        old(self)@.needs_string,
                        seq!["#include <string.h>\n"@] + string_defs(*iface),
                    ),
                ),
            ),
    {
        if self.needs_string {
            let ns = snake(iface.name.as_str());
            self.print_string_decls(ns.as_str(), Ghost(*iface));
            self.c("#include <string.h>\n");
            self.print_string_defs(ns.as_str(), Ghost(*iface));
        }
    }

    /// Prints the string type and the declarations of its helpers.
    fn print_string_decls(&mut self, ns: &str, Ghost(iface): Ghost<Interface>)
        requires
            ns@ == snake_case(iface.name@),
        ensures
            final(self)@ == old(self)@.with_h(render(old(self)@.h, string_decls(iface))),
    {
        let ns = String::from_str(ns);
        self.h("\n                    typedef struct {\n                        char *ptr;\n                        size_t len;\n                    } ");
        self.h(ns.as_str());
        self.h("_string_t;\n\n                    void ");
        self.h(ns.as_str());
        self.h("_string_set(");
        self.h(ns.as_str());
        self.h("_string_t *ret, const char *s);\n                    void ");
        self.h(ns.as_str());
        self.h("_string_dup(");
        self.h(ns.as_str());
        self.h("_string_t *ret, const char *s);\n                    void ");
        self.h(ns.as_str());
        self.h("_string_free(");
        self.h(ns.as_str());
        self.h("_string_t *ret);\n                ");
    }

    /// Prints the definitions of the helpers of the string type.
    fn print_string_defs(&mut self, ns: &str, Ghost(iface): Ghost<Interface>)
        requires
            ns@ == snake_case(iface.name@),
        ensures
            final(self)@ == old(self)@.with_c(render(old(self)@.c, string_defs(iface))),
    {
        let ns = String::from_str(ns);
        self.c("\n                    void ");
        self.c(ns.as_str());
        self.c("_string_set(");
        self.c(ns.as_str());
        self.c("_string_t *ret, const char *s) {\n                        ret->ptr = (char*) s;\n                        ret->len = strlen(s);\n                    }\n\n                    void ");
        self.c(ns.as_str());
        self.c("_string_dup(");
        self.c(ns.as_str());
        self.c("_string_t *ret, const char *s) {\n                        ret->len = strlen(s);\n                        ret->ptr = cabi_realloc(NULL, 0, 1, ret->len);\n                        memcpy(ret->ptr, s, ret->len);\n                    }\n\n                    void ");
        self.c(ns.as_str());
        self.c("_string_free(");
        self.c(ns.as_str());
        self.c("_string_t *ret) {\n                        if (ret->len > 0) {\n                            free(ret->ptr);\n                        }\n                        ret->ptr = NULL;\n                        ret->len = 0;\n                    }\n                ");
    }

    /// Prints the definitions of the types in the given order: a private
    /// type into the implementation, any other into the header, with its
    /// destructor behind it.
    #[verifier::rlimit(50)]
    fn print_types(&mut self, iface: &Interface, order: &Vec<usize>, private: &BTreeSet<usize>)
        requires
            iface.supported(),
            forall|k: int| 0 <= k < order@.len() ==> (#[trigger] order@[k]) < iface.types@.len(),
        ensures
            final(self)@ == old(self)@.with_h(
                render(
                    old(self)@.h,
                    gather(order@.len(), type_h_arm(*iface, old(self)@.types, private@, order@)),
                ),
            ).with_c(
                render(
                    old(self)@.c,
                    gather(order@.len(), type_c_arm(*iface, old(self)@.types, private@, order@)),
                ),
            ),
    {
        let ghost g = self@;
        let ghost ha = type_h_arm(*iface, g.types, private@, order@);
        let ghost ca = type_c_arm(*iface, g.types, private@, order@);
        let mut k: usize = 0;
        while k < order.len()
            invariant
                iface.supported(),
                forall|k: int| 0 <= k < order@.len() ==> (#[trigger] order@[k]) < iface.types@.len(),
                k <= order@.len(),
                g == old(self)@,
                ha == type_h_arm(*iface, g.types, private@, order@),
                ca == type_c_arm(*iface, g.types, private@, order@),
                self@ == g.with_h(render(g.h, gather(k as nat, ha))).with_c(
                    render(g.c, gather(k as nat, ca)),
                ),
            decreases order@.len() - k,
        {
            let id = order[k];
            let ghost seen_h = gather(k as nat, ha);
            let ghost seen_c = gather(k as nat, ca);
            let text = match self.def_text(id) {
                Some(text) => Some(text.clone()),
                None => None,
            };
            match text {
                Some(text) => {
                    if private.contains(&id) {
                        self.c(text.as_str());
                        proof {
                            assert(ca(k as int) == seq![text@]);
                            assert(ha(k as int) == Seq::<Seq<char>>::empty());
                            assert(seen_h + ha(k as int) =~= seen_h);
                            assert(seen_c + ca(k as int) =~= seen_c.push(text@));
                        }
                    } else {
                        self.h(text.as_str());
                        self.print_dtor(iface, id);
                        proof {
                            assert(ha(k as int) == seq![text@] + iface.dtor_header(id));
                            assert(ca(k as int) == iface.dtor_impl(id));
                            assert(seen_h + ha(k as int) =~= seen_h.push(text@) + iface.dtor_header(
                                id,
                            ));
                        }
                    }
                },
                None => {
                    proof {
                        assert(ha(k as int) == Seq::<Seq<char>>::empty());
                        assert(ca(k as int) == Seq::<Seq<char>>::empty());
                        assert(seen_h + ha(k as int) =~= seen_h);
                        assert(seen_c + ca(k as int) =~= seen_c);
                    }
                },
            }
            proof {
                assert(gather((k + 1) as nat, ha) == seen_h + ha(k as int));
                assert(gather((k + 1) as nat, ca) == seen_c + ca(k as int));
            }
            k += 1;
        }
    }

    /// Prints the static return area, if this is no import and a return
    /// area was asked for.
    fn print_ret_area(&mut self)
        ensures
            final(self)@ == old(self)@.with_c(render(old(self)@.c, ret_area(old(self)@))),
    {
        let ghost g = self@;
        if !self.in_import && self.return_pointer_area_size > 0 {
            let align = decimal_string(self.return_pointer_area_align);
            let size = decimal_string(self.return_pointer_area_size);
        self.c("\n                    __attribute__((aligned(");
        self.c(align.as_str());
        self.c(")))\n                    static uint8_t RET_AREA[");
        self.c(size.as_str());
        self.c("];\n                ");
        }
    }

    /// Prints the parts of the functions that are filed, module by module,
    /// and files them no longer.
    fn print_funcs(&mut self)
        ensures
            final(self)@ == (GenState {
                h: render(old(self)@.h, funcs_h(old(self)@.funcs, old(self)@.funcs.len())),
                c: render(old(self)@.c, funcs_c(old(self)@.funcs, old(self)@.funcs.len())),
                funcs: Seq::empty(),
                ..old(self)@
            }),
    {
        let ghost g = self@;
        let mut funcs: Vec<Module> = Vec::new();
        std::mem::swap(&mut self.funcs, &mut funcs);
        let ghost all = g.funcs;
        assert(self@.funcs =~= Seq::<ModuleText>::empty());
        let mut i: usize = 0;
        while i < funcs.len()
            invariant
                i <= funcs@.len(),
                all.len() == funcs@.len(),
                forall|j: int| 0 <= j < funcs@.len() ==> all[j] == (#[trigger] funcs@[j])@,
                self@ == (GenState {
                    h: render(g.h, funcs_h(all, i as nat)),
                    c: render(g.c, funcs_c(all, i as nat)),
                    funcs: Seq::empty(),
                    ..g
                }),
            decreases funcs@.len() - i,
        {
            let module = &funcs[i];
            let ghost m = all[i as int];
            let ghost g1 = self@;
            let mut j: usize = 0;
            while j < module.funcs.len()
                invariant
                    j <= module.funcs@.len(),
                    m == module@,
                    self@ == g1.with_h(render(g1.h, module_h(m, j as nat))).with_c(
                        render(g1.c, module_c(m, j as nat)),
                    ),
                decreases module.funcs@.len() - j,
            {
                assert(m.funcs[j as int] == module.funcs@[j as int]@);
                self.h(module.funcs[j].h.as_str());
                self.c(module.funcs[j].c.as_str());
                j += 1;
            }
            i += 1;
        }
    }

    /// Prints what ends the header.
    fn print_trailer(&mut self)
        ensures
            final(self)@ == old(self)@.with_h(render(old(self)@.h, header_trailer())),
    {
        self.h("#ifdef __cplusplus\n        }\n        #endif\n        ");
        self.h("#endif\n");
    }

    /// Finishes generation for an interface: drains the anonymous types,
    /// puts header and implementation together, and hands them out as files,
    /// with the object that holds the component type. `linking_symbol` is the
    /// symbol that this object defines. It fails, before it prints anything
    /// but the preamble, where an anonymous type is due that the generator
    /// cannot print without a name.
    #[verifier::rlimit(50)]
    pub fn finish_one(
        &mut self,
        iface: &Interface,
        linking_symbol: &str,
        object: &[u8],
        files: &mut Files,
    ) -> (r: Result<(), Error>)
        requires
            iface.supported(),
        ensures
            match all_drained(old(self)@, *iface) {
                Ok(d) => r is Ok && final(self)@ == finished_state(
                    old(self)@,
                    d.0,
                    d.1,
                    *iface,
                    linking_symbol@,
                ) && files_contents(*final(files)) == finished_files(
                    files_contents(*old(files)),
                    *iface,
                    final(self)@.c.text,
                    final(self)@.h.text,
                    object@,
                ),
                Err(fail) => r matches Err(e) && e@ == fail && files_contents(*final(files))
                    == files_contents(*old(files)),
            },
            r is Ok ==> complete(*iface, old(self)@, final(self)@),
    {
        let ghost g0 = self@;
        self.print_preamble(iface, linking_symbol);
        let ghost g1 = self@;

        // The public anonymous types come first. What they name is public
        // too, and is private no longer.
        proof {
            lemma_drained_bufs(g0, g1, *iface, false, iface.depth());
        }
        let ghost set1;
        match self.drain(iface, false) {
            Ok(set) => {
                proof {
                    set1 = set@;
                }
            },
            Err(e) => {
                return Err(e);
            },
        }
        let ghost s1 = self@;

        // The private anonymous types are next: they take the place of the
        // public ones. A type that has a definition by now is public.
        let mut taken: BTreeSet<usize> = BTreeSet::new();
        std::mem::swap(&mut self.private_anonymous_types, &mut taken);
        self.public_anonymous_types = taken;
        let ghost s1b = self@;
        proof {
            let first = drained(g0, *iface, false, iface.depth())->Ok_0;
            let second = GenState { public: first.0.private, private: Set::empty(), ..first.0 };
            lemma_drained_bufs(second, self@, *iface, true, iface.depth());
        }
        let private = match self.drain(iface, true) {
            Ok(set) => set,
            Err(e) => {
                return Err(e);
            },
        };
        let ghost d = all_drained(g0, *iface)->Ok_0;
        assert(self@ == d.0.with_h(g1.h).with_c(g1.c));
        proof {
            let s2 = self@;
            assert(crate::drain::pending(*iface, g1, s1, set1));
            assert(crate::drain::pending(*iface, s1b, s2, private@));
            assert(s2.private =~= Set::<usize>::empty());
            assert forall|id: usize, x: usize|
                s2.types.contains_key(id) && !g0.types.contains_key(id) && #[trigger] iface.child(
                    id,
                    x,
                ) implies s2.types.contains_key(x) by {
                if set1.contains(id) {
                    assert(s1.types.contains_key(x));
                }
            }
            assert(complete(*iface, g0, s2));
        }

        self.print_string_helpers(iface);

        // The definitions are printed so that each stands behind those it
        // mentions.
        let order = iface.topological_types();
        proof {
            iface.topological_order_is_sound();
        }
        self.print_types(iface, &order, &private);

        // An export's return area is static: it must outlive the call.
        self.print_ret_area();
        self.print_funcs();
        self.print_trailer();

        let kebab_name = kebab(iface.name.as_str());
        let c_name = concat2(kebab_name.as_str(), ".c");
        files_push(files, c_name.as_str(), source_str(&self.src.c).as_bytes());
        let h_name = concat2(kebab_name.as_str(), ".h");
        files_push(files, h_name.as_str(), source_str(&self.src.h).as_bytes());
        let o_name = concat2(kebab_name.as_str(), "_component_type.o");
        files_push(files, o_name.as_str(), object);
        Ok(())
    }
}

/// What the buffers hold does not matter to the draining of anonymous
/// types, which leaves them as they are.
pub(crate) proof fn lemma_drained_bufs(a: GenState, b: GenState, iface: Interface, skip: bool, fuel: nat)
    requires
        b == a.with_h(b.h).with_c(b.c),
    ensures
        match drained(a, iface, skip, fuel) {
            Ok(done) => drained(b, iface, skip, fuel) == Ok::<(GenState, Set<usize>), Failure>(
                (done.0.with_h(b.h).with_c(b.c), done.1),
            ),
            Err(e) => drained(b, iface, skip, fuel) == Err::<(GenState, Set<usize>), Failure>(e),
        },
    decreases fuel,
{
    if a.public == Set::<usize>::empty() {
    } else if !iface.all_structural(crate::drain::due(a, skip)) {
    } else if fuel == 0 {
    } else {
        let ra = crate::drain::round(a, iface, skip);
        let rb = crate::drain::round(b, iface, skip);
        assert(rb == ra.with_h(rb.h).with_c(rb.c));
        lemma_drained_bufs(ra, rb, iface, skip, (fuel - 1) as nat);
    }
}

} // verus!
