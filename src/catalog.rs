//! The interface catalog: every interface of a set of documents, merged,
//! with names unique and cross-document references resolved.
use vstd::prelude::*;
use crate::compiler::{
    compile_interface, interface_compiled, interface_compiles, is_core, is_document_error, CompileError,
    RawProtocol,
};
use crate::schema::{Arg, ArgType, Interface};
use crate::text::{pascal, pascal_case, text_eq};

verus! {

/// Every interface of the documents, each with whether it belongs to the
/// core protocol, in document order.
pub open spec fn catalog_sources(raws: Seq<RawProtocol>) -> Seq<(crate::compiler::RawInterface, bool)>
    decreases raws.len(),
{
    if raws.len() == 0 {
        Seq::empty()
    } else {
        catalog_sources(raws.drop_last()) + raws.last().interfaces@.map_values(
            |i: crate::compiler::RawInterface| (i, is_core(raws.last())),
        )
    }
}

pub open spec fn sources_compile(src: Seq<(crate::compiler::RawInterface, bool)>) -> bool {
    forall|k: int| 0 <= k < src.len() ==> interface_compiles(#[trigger] src[k].0)
}

pub open spec fn sources_compiled(
    c: Seq<Interface>,
    src: Seq<(crate::compiler::RawInterface, bool)>,
) -> bool {
    c.len() == src.len() && forall|k: int|
        0 <= k < src.len() ==> interface_compiled(#[trigger] c[k], src[k].0, src[k].1)
}

pub open spec fn names_unique(c: Seq<Interface>) -> bool {
    forall|a: int, b: int|
        0 <= a < c.len() && 0 <= b < c.len() && a != b ==> #[trigger] c[a].wire_name@
            != #[trigger] c[b].wire_name@
}

pub open spec fn has_interface(c: Seq<Interface>, name: Seq<char>) -> bool {
    exists|k: int| 0 <= k < c.len() && #[trigger] c[k].wire_name@ == name
}

/// Whether an interface has an enum that a reference names; references use
/// the document's spelling, enums carry the normalized one.
pub open spec fn has_enum(i: Interface, name: Seq<char>) -> bool {
    exists|k: int| 0 <= k < i.enums@.len() && #[trigger] i.enums@[k].name@ == pascal(name)
}

pub open spec fn first_dot(s: Seq<char>, d: int) -> bool {
    0 <= d < s.len() && s[d] == '.' && forall|j: int| 0 <= j < d ==> s[j] != '.'
}

/// An enum reference is `name` (the owner's enum) or `interface.name`.
pub open spec fn enum_ref_resolves(c: Seq<Interface>, owner: Interface, r: Seq<char>) -> bool {
    if forall|j: int| 0 <= j < r.len() ==> r[j] != '.' {
        has_enum(owner, r)
    } else {
        exists|d: int, k: int|
            #![trigger first_dot(r, d), c[k]]
            first_dot(r, d) && 0 <= k < c.len() && c[k].wire_name@ == r.take(d)
                && has_enum(c[k], r.skip(d + 1))
    }
}

pub open spec fn arg_resolves(c: Seq<Interface>, owner: Interface, t: ArgType) -> bool {
    match t {
        ArgType::Enum(r) => enum_ref_resolves(c, owner, r@),
        ArgType::Object(r) => has_interface(c, r@),
        ArgType::NewId(r) => has_interface(c, r@),
        _ => true,
    }
}

pub open spec fn args_resolve(c: Seq<Interface>, owner: Interface, args: Seq<Arg>) -> bool {
    forall|k: int| 0 <= k < args.len() ==> arg_resolves(c, owner, #[trigger] args[k].arg_type)
}

pub open spec fn interface_resolves(c: Seq<Interface>, i: Interface) -> bool {
    &&& forall|k: int|
        0 <= k < i.requests@.len() ==> args_resolve(c, i, #[trigger] i.requests@[k].args@)
    &&& forall|k: int| 0 <= k < i.events@.len() ==> args_resolve(c, i, #[trigger] i.events@[k].args@)
}

pub open spec fn catalog_resolves(c: Seq<Interface>) -> bool {
    forall|k: int| 0 <= k < c.len() ==> interface_resolves(c, #[trigger] c[k])
}

/// The compiled interfaces of a set of documents, shared read-only by the
/// connections that use it. An interface's index here identifies it.
pub struct Catalog {
    pub interfaces: Vec<Interface>,
}

impl Catalog {
    pub open spec fn wf(&self) -> bool {
        names_unique(self.interfaces@) && catalog_resolves(self.interfaces@)
    }

    /// Compiles and merges documents. All interfaces are compiled first,
    /// which gives the set of names; references are resolved against it
    /// afterwards, so a document may refer to one that follows it.
    pub fn compile(raws: &Vec<RawProtocol>) -> (r: Result<Catalog, CompileError>)
        ensures
            match r {
                Ok(c) => {
                    &&& sources_compile(catalog_sources(raws@))
                    &&& sources_compiled(c.interfaces@, catalog_sources(raws@))
                    &&& c.wf()
                },
                Err(e) => match e {
                    CompileError::BadNumber(_) | CompileError::UnknownArgType(_) => !sources_compile(
                        catalog_sources(raws@),
                    ),
                    CompileError::DuplicateInterface(name) => {
                        &&& sources_compile(catalog_sources(raws@))
                        &&& exists|a: int, b: int|
                            0 <= a < catalog_sources(raws@).len() && 0 <= b < catalog_sources(
                                raws@,
                            ).len() && a != b && #[trigger] catalog_sources(raws@)[a].0.name@ == name@
                                && #[trigger] catalog_sources(raws@)[b].0.name@ == name@
                    },
                    CompileError::UnresolvedInterface(_) | CompileError::UnresolvedEnum(_) => {
                        &&& sources_compile(catalog_sources(raws@))
                        &&& exists|c: Seq<Interface>|
                            sources_compiled(c, catalog_sources(raws@)) && names_unique(c)
                                && !catalog_resolves(c)
                    },
                },
            },
    {
        let mut flat: Vec<Interface> = Vec::new();
        let mut p: usize = 0;
        while p < raws.len()
            invariant
                p <= raws@.len(),
                sources_compiled(flat@, catalog_sources(raws@.take(p as int))),
                sources_compile(catalog_sources(raws@.take(p as int))),
            decreases raws@.len() - p,
        {
            let raw = &raws[p];
            let core = text_eq(raw.name.as_str(), "wayland");
            let ghost before = catalog_sources(raws@.take(p as int));
            let ghost added = raw.interfaces@.map_values(
                |i: crate::compiler::RawInterface| (i, is_core(*raw)),
            );
            assert(raws@.take(p + 1).drop_last() =~= raws@.take(p as int));
            assert(catalog_sources(raws@.take(p + 1)) == before + added);
            let mut j: usize = 0;
            while j < raw.interfaces.len()
                invariant
                    p < raws@.len(),
                    raw == raws@[p as int],
                    core == is_core(*raw),
                    j <= raw.interfaces@.len(),
                    catalog_sources(raws@.take(p + 1)) == before + added,
                    added.len() == raw.interfaces@.len(),
                    added == raw.interfaces@.map_values(
                        |i: crate::compiler::RawInterface| (i, is_core(*raw)),
                    ),
                    sources_compiled(flat@, before + added.take(j as int)),
                    sources_compile(before + added.take(j as int)),
                decreases raw.interfaces@.len() - j,
            {
                let ghost old_flat = flat@;
                match compile_interface(&raw.interfaces[j], core) {
                    Ok(x) => flat.push(x),
                    Err(e) => {
                        assert(is_document_error(e));
                        assert(!sources_compile(catalog_sources(raws@))) by {
                            lemma_sources_prefix(raws@, p as int + 1);
                            assert(catalog_sources(raws@.take(p + 1))[before.len() + j]
                                == added[j as int]);
                            assert(catalog_sources(raws@)[before.len() + j] == added[j as int]);
                            assert(added[j as int].0 == raw.interfaces@[j as int]);
                            assert(!interface_compiles(catalog_sources(raws@)[before.len() + j].0));
                        }
                        return Err(e);
                    },
                }
                assert(before + added.take(j + 1) =~= (before + added.take(j as int)).push(
                    added[j as int],
                ));
                j = j + 1;
            }
            assert(added.take(j as int) =~= added);
            p = p + 1;
        }
        assert(raws@.take(raws@.len() as int) =~= raws@);
        let cat = Catalog { interfaces: flat };
        match cat.check_names() {
            Ok(()) => {},
            Err(e) => {
                proof {
                    let src = catalog_sources(raws@);
                    let (a, b) = choose|a: int, b: int|
                        0 <= a < cat.interfaces@.len() && 0 <= b < cat.interfaces@.len() && a != b
                            && #[trigger] cat.interfaces@[a].wire_name@ == e->DuplicateInterface_0@
                            && #[trigger] cat.interfaces@[b].wire_name@ == e->DuplicateInterface_0@;
                    assert(interface_compiled(cat.interfaces@[a], src[a].0, src[a].1));
                    assert(interface_compiled(cat.interfaces@[b], src[b].0, src[b].1));
                    assert(sources_compiled(cat.interfaces@, src) && !names_unique(cat.interfaces@));
                }
                return Err(e);
            },
        }
        match cat.check_references() {
            Ok(()) => {},
            Err(e) => return Err(e),
        }
        Ok(cat)
    }

    /// The first pass over the merged interfaces: no name may repeat.
    fn check_names(&self) -> (r: Result<(), CompileError>)
        ensures
            r is Ok <==> names_unique(self.interfaces@),
            r matches Err(e) ==> (e matches CompileError::DuplicateInterface(name) && exists|a: int, b: int|
                0 <= a < self.interfaces@.len() && 0 <= b < self.interfaces@.len() && a != b
                    && #[trigger] self.interfaces@[a].wire_name@ == name@
                    && #[trigger] self.interfaces@[b].wire_name@ == name@),
    {
        let n = self.interfaces.len();
        let mut a: usize = 0;
        while a < n
            invariant
                n == self.interfaces@.len(),
                a <= n,
                forall|x: int, y: int|
                    0 <= x < a && 0 <= y < n && x != y ==> #[trigger] self.interfaces@[x].wire_name@
                        != #[trigger] self.interfaces@[y].wire_name@,
            decreases n - a,
        {
            let mut b: usize = 0;
            while b < n
                invariant
                    n == self.interfaces@.len(),
                    a < n,
                    b <= n,
                    forall|x: int, y: int|
                        0 <= x < a && 0 <= y < n && x != y ==> #[trigger] self.interfaces@[x].wire_name@
                            != #[trigger] self.interfaces@[y].wire_name@,
                    forall|y: int|
                        0 <= y < b && y != a ==> self.interfaces@[a as int].wire_name@
                            != #[trigger] self.interfaces@[y].wire_name@,
                decreases n - b,
            {
                if a != b && text_eq(
                    self.interfaces[a].wire_name.as_str(),
                    self.interfaces[b].wire_name.as_str(),
                ) {
                    return Err(CompileError::DuplicateInterface(self.interfaces[a].wire_name.clone()));
                }
                b = b + 1;
            }
            a = a + 1;
        }
        Ok(())
    }

    /// Finds the interface that the wire calls `name`.
    pub fn find_interface(&self, name: &str) -> (r: Option<usize>)
        ensures
            match r {
                Some(k) => k < self.interfaces@.len() && self.interfaces@[k as int].wire_name@
                    == name@,
                None => !has_interface(self.interfaces@, name@),
            },
    {
        let mut k: usize = 0;
        while k < self.interfaces.len()
            invariant
                k <= self.interfaces@.len(),
                forall|j: int| 0 <= j < k ==> #[trigger] self.interfaces@[j].wire_name@ != name@,
            decreases self.interfaces@.len() - k,
        {
            if text_eq(self.interfaces[k].wire_name.as_str(), name) {
                return Some(k);
            }
            k = k + 1;
        }
        None
    }

    fn enum_ref_ok(&self, owner: &Interface, r: &str) -> (ok: bool)
        requires
            names_unique(self.interfaces@),
        ensures
            ok == enum_ref_resolves(self.interfaces@, *owner, r@),
    {
        let n = r.unicode_len();
        let mut d: usize = 0;
        while d < n && r.get_char(d) != '.'
            invariant
                n == r@.len(),
                d <= n,
                forall|j: int| 0 <= j < d ==> r@[j] != '.',
            decreases n - d,
        {
            d = d + 1;
        }
        if d == n {
            return has_enum_named(owner, r);
        }
        assert(first_dot(r@, d as int));
        let head = r.substring_char(0, d);
        let tail = r.substring_char(d + 1, n);
        assert(head@ =~= r@.take(d as int));
        assert(tail@ =~= r@.skip(d + 1));
        let ok = match self.find_interface(head) {
            Some(k) => {
                let found = has_enum_named(&self.interfaces[k], tail);
                proof {
                    if found {
                        assert(first_dot(r@, d as int) && self.interfaces@[k as int].wire_name@
                            == r@.take(d as int) && has_enum(
                            self.interfaces@[k as int],
                            r@.skip(d + 1),
                        ));
                    }
                }
                found
            },
            None => false,
        };
        assert(!(forall|j: int| 0 <= j < r@.len() ==> r@[j] != '.'));
        proof {
            if enum_ref_resolves(self.interfaces@, *owner, r@) {
                let (d2, k2) = choose|d2: int, k2: int|
                    #![trigger first_dot(r@, d2), self.interfaces@[k2]]
                    first_dot(r@, d2) && 0 <= k2 < self.interfaces@.len()
                        && self.interfaces@[k2].wire_name@ == r@.take(d2) && has_enum(
                        self.interfaces@[k2],
                        r@.skip(d2 + 1),
                    );
                assert(d2 == d) by {
                    if d2 < d {
                        assert(r@[d2] != '.');
                    }
                    if d < d2 {
                        assert(r@[d as int] != '.');
                    }
                }
                assert(head@ =~= r@.take(d as int));
                assert(tail@ =~= r@.skip(d + 1));
                assert(has_interface(self.interfaces@, head@));
            }
            if ok {
                assert(head@ =~= r@.take(d as int));
                assert(tail@ =~= r@.skip(d + 1));
            }
        }
        ok
    }

    fn arg_ok(&self, owner: &Interface, t: &ArgType) -> (r: Result<(), CompileError>)
        requires
            names_unique(self.interfaces@),
        ensures
            r matches Err(e) ==> (e is UnresolvedInterface || e is UnresolvedEnum),
            r is Ok <==> arg_resolves(self.interfaces@, *owner, *t),
    {
        match t {
            ArgType::Enum(e) => if self.enum_ref_ok(owner, e.as_str()) {
                Ok(())
            } else {
                Err(CompileError::UnresolvedEnum(e.clone()))
            },
            ArgType::Object(i) | ArgType::NewId(i) => match self.find_interface(i.as_str()) {
                Some(_) => Ok(()),
                None => Err(CompileError::UnresolvedInterface(i.clone())),
            },
            _ => Ok(()),
        }
    }

    fn args_ok(&self, owner: &Interface, args: &Vec<Arg>) -> (r: Result<(), CompileError>)
        requires
            names_unique(self.interfaces@),
        ensures
            r matches Err(e) ==> (e is UnresolvedInterface || e is UnresolvedEnum),
            r is Ok <==> args_resolve(self.interfaces@, *owner, args@),
    {
        let mut k: usize = 0;
        while k < args.len()
            invariant
                names_unique(self.interfaces@),
                k <= args@.len(),
                forall|j: int|
                    0 <= j < k ==> arg_resolves(self.interfaces@, *owner, #[trigger] args@[j].arg_type),
            decreases args@.len() - k,
        {
            match self.arg_ok(owner, &args[k].arg_type) {
                Ok(()) => {},
                Err(e) => return Err(e),
            }
            k = k + 1;
        }
        Ok(())
    }

    /// The second pass: every enum and interface that an argument names
    /// exists in the catalog.
    fn check_references(&self) -> (r: Result<(), CompileError>)
        requires
            names_unique(self.interfaces@),
        ensures
            r matches Err(e) ==> (e is UnresolvedInterface || e is UnresolvedEnum),
            r is Ok <==> catalog_resolves(self.interfaces@),
    {
        let n = self.interfaces.len();
        let mut i: usize = 0;
        while i < n
            invariant
                names_unique(self.interfaces@),
                n == self.interfaces@.len(),
                i <= n,
                forall|k: int| 0 <= k < i ==> interface_resolves(self.interfaces@, #[trigger] self.interfaces@[k]),
            decreases n - i,
        {
            let owner = &self.interfaces[i];
            let mut q: usize = 0;
            while q < owner.requests.len()
                invariant
                    names_unique(self.interfaces@),
                    n == self.interfaces@.len(),
                    i < n,
                    owner == self.interfaces@[i as int],
                    q <= owner.requests@.len(),
                    forall|k: int|
                        0 <= k < q ==> args_resolve(self.interfaces@, *owner, #[trigger] owner.requests@[k].args@),
                decreases owner.requests@.len() - q,
            {
                match self.args_ok(owner, &owner.requests[q].args) {
                    Ok(()) => {},
                    Err(e) => {
                        assert(!interface_resolves(self.interfaces@, self.interfaces@[i as int]));
                        return Err(e);
                    },
                }
                q = q + 1;
            }
            let mut v: usize = 0;
            while v < owner.events.len()
                invariant
                    names_unique(self.interfaces@),
                    n == self.interfaces@.len(),
                    i < n,
                    owner == self.interfaces@[i as int],
                    v <= owner.events@.len(),
                    forall|k: int|
                        0 <= k < owner.requests@.len() ==> args_resolve(self.interfaces@, *owner, #[trigger] owner.requests@[k].args@),
                    forall|k: int|
                        0 <= k < v ==> args_resolve(self.interfaces@, *owner, #[trigger] owner.events@[k].args@),
                decreases owner.events@.len() - v,
            {
                match self.args_ok(owner, &owner.events[v].args) {
                    Ok(()) => {},
                    Err(e) => {
                        assert(!interface_resolves(self.interfaces@, self.interfaces@[i as int]));
                        return Err(e);
                    },
                }
                v = v + 1;
            }
            i = i + 1;
        }
        Ok(())
    }
}

fn has_enum_named(owner: &Interface, name: &str) -> (r: bool)
    ensures
        r == has_enum(*owner, name@),
{
    let wanted = pascal_case(name);
    let mut k: usize = 0;
    while k < owner.enums.len()
        invariant
            wanted@ == pascal(name@),
            k <= owner.enums@.len(),
            forall|j: int| 0 <= j < k ==> #[trigger] owner.enums@[j].name@ != wanted@,
        decreases owner.enums@.len() - k,
    {
        if text_eq(owner.enums[k].name.as_str(), wanted.as_str()) {
            return true;
        }
        k = k + 1;
    }
    false
}

proof fn lemma_sources_prefix(raws: Seq<RawProtocol>, p: int)
    requires
        0 <= p <= raws.len(),
    ensures
        catalog_sources(raws.take(p)).len() <= catalog_sources(raws).len(),
        forall|k: int|
            0 <= k < catalog_sources(raws.take(p)).len() ==> #[trigger] catalog_sources(raws)[k]
                == catalog_sources(raws.take(p))[k],
    decreases raws.len() - p,
{
    if p < raws.len() {
        lemma_sources_prefix(raws, p + 1);
        assert(raws.take(p + 1).drop_last() =~= raws.take(p));
    } else {
        assert(raws.take(p) =~= raws);
    }
}

} // verus!
