//! How a function hands back its results.
use vstd::prelude::*;
use crate::gen::C;
use crate::ir::Function;
use crate::ir::Interface;
use crate::ir::Type;
use crate::ir::TypeDefKind;

verus! {

/// What a function returns by value.
#[derive(Clone, Copy, Debug, PartialEq, Eq, Structural)]
pub enum Scalar {
    /// Nothing.
    Void,
    /// Whether an option holds a value; the value itself goes through a
    /// pointer.
    OptionBool(Type),
    /// The error of a result whose error type is the enum `err` with
    /// `max_err` cases, or -1 on success; the success value goes through a
    /// pointer.
    ResultEnum { err: usize, max_err: usize },
    /// A value of a type that C returns directly.
    Type(Type),
}

/// How a function hands back its results: a scalar, if it returns one, and
/// the types that go through trailing pointer parameters.
#[derive(Debug)]
pub struct Return {
    pub return_multiple: bool,
    pub scalar: Option<Scalar>,
    pub retptrs: Vec<Type>,
}

/// A [`Return`] as a value.
pub struct Shape {
    pub return_multiple: bool,
    pub scalar: Option<Scalar>,
    pub retptrs: Seq<Type>,
}

impl View for Return {
    type V = Shape;

    open spec fn view(&self) -> Shape {
        Shape {
            return_multiple: self.return_multiple,
            scalar: self.scalar,
            retptrs: self.retptrs@,
        }
    }
}

impl Shape {
    /// Nothing decided yet.
    pub open spec fn undecided() -> Shape {
        Shape { return_multiple: false, scalar: None, retptrs: Seq::empty() }
    }

    /// The shape with a scalar.
    pub open spec fn by_value(self, s: Scalar) -> Shape {
        Shape { scalar: Some(s), ..self }
    }

    /// The shape with one more pointer parameter.
    pub open spec fn by_pointer(self, ty: Type) -> Shape {
        Shape { retptrs: self.retptrs.push(ty), ..self }
    }
}

impl Interface {
    /// The shape `shape` once the single result `orig` is accounted for,
    /// judged by `ty`, the type that `orig` is an alias of:
    /// a primitive, an enum or flags are returned by value; of an option the
    /// presence is returned and the payload goes through a pointer; of a
    /// result whose error is an enum the error is returned and the success
    /// value, if any, goes through a pointer; all else goes through a pointer.
    pub open spec fn single(self, shape: Shape, ty: Type, orig: Type) -> Shape
        decreases self.height(ty),
        when self.wf() && self.has(ty)
    {
        match ty {
            Type::String => shape.by_pointer(orig),
            Type::Id(i) => match self.types@[i as int].kind {
                TypeDefKind::Type(t) => {
                    proof {
                        self.lemma_slot(i, 0);
                    }
                    self.single(shape, t, orig)
                },
                TypeDefKind::Flags(_) | TypeDefKind::Enum(_) => shape.by_value(Scalar::Type(orig)),
                TypeDefKind::Option(t) => shape.by_value(Scalar::OptionBool(t)).by_pointer(t),
                TypeDefKind::Result { ok, err } => match self.enum_cases(err) {
                    Some(n) => {
                        let s = shape.by_value(
                            Scalar::ResultEnum { err: err->0->Id_0, max_err: n as usize },
                        );
                        match ok {
                            Some(t) => s.by_pointer(t),
                            None => s,
                        }
                    },
                    None => shape.by_pointer(orig),
                },
                _ => shape.by_pointer(orig),
            },
            _ => shape.by_value(Scalar::Type(orig)),
        }
    }

    /// The number of cases of the enum that `ty` names directly, if it names
    /// one.
    pub open spec fn enum_cases(self, ty: Option<Type>) -> Option<nat> {
        match ty {
            Some(Type::Id(e)) => if e < self.types@.len() {
                match self.types@[e as int].kind {
                    TypeDefKind::Enum(cases) => Some(cases@.len()),
                    _ => None,
                }
            } else {
                None
            },
            _ => None,
        }
    }

    /// How a function with the given results hands them back: nothing where
    /// there is none, each through a pointer where there are several, and by
    /// [`Interface::single`] where there is one.
    pub open spec fn classify(self, results: Seq<Type>) -> Shape {
        if results.len() == 0 {
            Shape::undecided().by_value(Scalar::Void)
        } else if results.len() == 1 {
            self.single(Shape::undecided(), results[0], results[0])
        } else {
            Shape { return_multiple: true, scalar: None, retptrs: results }
        }
    }
}

impl Return {
    /// Accounts for the single result `orig_ty`, judged by `ty`.
    pub fn return_single(&mut self, iface: &Interface, ty: &Type, orig_ty: &Type)
        requires
            iface.supported(),
            iface.has(*ty),
        ensures
            final(self)@ == iface.single(old(self)@, *ty, *orig_ty),
        decreases iface.height(*ty),
    {
        let id = match ty {
            Type::Id(id) => *id,
            Type::String => {
                self.retptrs.push(*orig_ty);
                return ;
            },
            _ => {
                self.scalar = Some(Scalar::Type(*orig_ty));
                return ;
            },
        };
        match &iface.types[id].kind {
            TypeDefKind::Type(t) => {
                proof {
                    iface.lemma_slot(id, 0);
                }
                return self.return_single(iface, t, orig_ty);
            },
            // Flags and enums are returned as their bare values.
            TypeDefKind::Flags(_) | TypeDefKind::Enum(_) => {
                self.scalar = Some(Scalar::Type(*orig_ty));
                return ;
            },
            // Of an option the presence is returned, and the payload goes
            // through a pointer.
            TypeDefKind::Option(ty) => {
                self.scalar = Some(Scalar::OptionBool(*ty));
                self.retptrs.push(*ty);
                return ;
            },
            // Of a result whose error is an enum the error is returned, and
            // the success value goes through a pointer.
            TypeDefKind::Result { ok, err } => {
                if let Some(Type::Id(err)) = err {
                    proof {
                        iface.lemma_slot(id, 1);
                    }
                    if let TypeDefKind::Enum(cases) = &iface.types[*err].kind {
                        self.scalar = Some(Scalar::ResultEnum { err: *err, max_err: cases.len() });
                        if let Some(ok) = ok {
                            self.retptrs.push(*ok);
                        }
                        return ;
                    }
                }
            },
            _ => {},
        }
        self.retptrs.push(*orig_ty);
    }
}

impl C {
    /// How a function hands back its results.
    pub fn classify_ret(iface: &Interface, func: &Function) -> (ret: Return)
        requires
            iface.supported(),
            forall|k: int| 0 <= k < func.results@.len() ==> iface.has(#[trigger] func.results@[k]),
        ensures
            ret@ == iface.classify(func.results@),
    {
        let mut ret = Return { return_multiple: false, scalar: None, retptrs: Vec::new() };
        if func.results.len() == 0 {
            ret.scalar = Some(Scalar::Void);
        } else if func.results.len() == 1 {
            let ty = func.results[0];
            ret.return_single(iface, &ty, &ty);
        } else {
            ret.return_multiple = true;
            assert(func.results@.take(0) =~= Seq::<Type>::empty());
            let mut k: usize = 0;
            while k < func.results.len()
                invariant
                    k <= func.results@.len(),
                    ret@ == (Shape {
                        return_multiple: true,
                        scalar: None,
                        retptrs: func.results@.take(k as int),
                    }),
                decreases func.results@.len() - k,
            {
                ret.retptrs.push(func.results[k]);
                assert(func.results@.take(k + 1) =~= func.results@.take(k as int).push(
                    func.results@[k as int],
                ));
                k += 1;
            }
            assert(func.results@.take(func.results@.len() as int) =~= func.results@);
        }
        ret
    }
}

} // verus!
