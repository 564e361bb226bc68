//! The streaming checker state: symbol tables, header-directive detection,
//! and the nesting-balance stack, consumed one atom at a time.

use vstd::prelude::*;
use vstd::string::StringExecFns;
use vstd::string::StringSliceAdditionalSpecFns;
use crate::bytes::is_space;
use crate::bytes::lower;
use crate::bytes::str_bytes;
use crate::bytes::CARRIAGE_RETURN;
use crate::bytes::COLON;
use crate::bytes::LINE_FEED;
use crate::bytes::SPACE;
use crate::compat::builtin_consts_upto;
use crate::compat::builtin_defines_upto;
use crate::compat::spec_defs_bytes;
use crate::compat::spec_compat_alias;
use crate::compat::Compatibility;
use crate::compat::DEFS_FILE_ID;
use crate::diagnostics::spec_new_warning;
use crate::diagnostics::DiagnosticV;
use crate::diagnostics::LabelV;
use crate::diagnostics::Severity;
use crate::diagnostics::Warning;
use crate::diagnostics::WarningV;
use crate::parser::parse_from;
use crate::parser::spec_parse;
use crate::parser::spec_file_id;
use crate::parser::spec_span;
use crate::parser::Atom;
use crate::parser::AtomV;
use crate::parser::Parser;
use crate::registry::LEVEL_USERPATCH14;
use crate::lints::spec_lint_atom;
use crate::lints::spec_lint_name;
use crate::lints::spec_pipeline;
use crate::lints::spec_tag;
use crate::lints::Lint;
use crate::wordize::STAR;

verus! {

/// The set of byte-string names a vector of names stands for.
pub open spec fn name_set(v: Seq<Vec<u8>>) -> Set<Seq<u8>> {
    v.map_values(|x: Vec<u8>| x@).to_set()
}

/// Is `name` one of the names in `v`?
pub fn names_contains(v: &Vec<Vec<u8>>, name: &[u8]) -> (r: bool)
    ensures
        r == name_set(v@).contains(name@),
{
    let ghost mapped = v@.map_values(|x: Vec<u8>| x@);
    let mut i: usize = 0;
    while i < v.len()
        invariant
            i <= v@.len(),
            mapped == v@.map_values(|x: Vec<u8>| x@),
            forall|k: int| 0 <= k < i ==> #[trigger] mapped[k] != name@,
        decreases v@.len() - i,
    {
        if crate::bytes::bytes_eq(v[i].as_slice(), name) {
            proof {
                assert(mapped[i as int] == name@);
                assert(mapped.contains(name@));
            }
            return true;
        }
        i = i + 1;
    }
    proof {
        assert(forall|k: int| 0 <= k < mapped.len() ==> #[trigger] mapped[k] != name@);
        assert(!mapped.contains(name@));
    }
    false
}

/// Add `name` to the set of names, keeping entries unique.
pub fn names_insert(v: &mut Vec<Vec<u8>>, name: Vec<u8>)
    ensures
        name_set(final(v)@) == name_set(old(v)@).insert(name@),
{
    let ghost nv = name@;
    if !names_contains(v, name.as_slice()) {
        let ghost pre = v@.map_values(|x: Vec<u8>| x@);
        v.push(name);
        proof {
            let post = v@.map_values(|x: Vec<u8>| x@);
            assert(post =~= pre.push(nv));
            assert forall|x: Seq<u8>| post.contains(x) <==> (pre.contains(x) || x == nv) by {
                if post.contains(x) {
                    let i = choose|i: int| 0 <= i < post.len() && post[i] == x;
                    if i < pre.len() {
                        assert(pre[i] == x);
                        assert(pre.contains(x));
                    }
                } else {
                    if pre.contains(x) {
                        let i = choose|i: int| 0 <= i < pre.len() && pre[i] == x;
                        assert(post[i] == x);
                    }
                    assert(post[post.len() - 1] == nv);
                }
            }
            assert(name_set(v@) =~= name_set(old(v)@).insert(nv));
        }
    } else {
        proof {
            assert(name_set(v@) =~= name_set(old(v)@).insert(nv));
        }
    }
}

/// A copy of a vector of names.
pub fn names_clone(v: &Vec<Vec<u8>>) -> (r: Vec<Vec<u8>>)
    ensures
        r@.map_values(|x: Vec<u8>| x@) == v@.map_values(|x: Vec<u8>| x@),
{
    let mut r: Vec<Vec<u8>> = Vec::new();
    let mut i: usize = 0;
    while i < v.len()
        invariant
            i <= v@.len(),
            r@.len() == i,
            forall|k: int| 0 <= k < i ==> (#[trigger] r@[k])@ == v@[k]@,
        decreases v@.len() - i,
    {
        let e = &v[i];
        r.push(crate::bytes::sub_bytes(e.as_slice(), 0, e.len()));
        proof {
            assert(v@[i as int]@.subrange(0, v@[i as int]@.len() as int) =~= v@[i as int]@);
        }
        i = i + 1;
    }
    assert(r@.map_values(|x: Vec<u8>| x@) =~= v@.map_values(|x: Vec<u8>| x@));
    r
}

/// One frame of the nesting stack, carrying the atom that opened it.
pub enum Nesting {
    If(Atom),
    ElseIf(Atom),
    Else(Atom),
    StartRandom(Atom),
    PercentChance(Atom),
    Brace(Atom),
}

/// Mathematical image of a [`Nesting`] frame.
pub ghost enum NestingV {
    If(AtomV),
    ElseIf(AtomV),
    Else(AtomV),
    StartRandom(AtomV),
    PercentChance(AtomV),
    Brace(AtomV),
}

impl View for Nesting {
    type V = NestingV;

    open spec fn view(&self) -> NestingV {
        match self {
            Nesting::If(a) => NestingV::If(a@),
            Nesting::ElseIf(a) => NestingV::ElseIf(a@),
            Nesting::Else(a) => NestingV::Else(a@),
            Nesting::StartRandom(a) => NestingV::StartRandom(a@),
            Nesting::PercentChance(a) => NestingV::PercentChance(a@),
            Nesting::Brace(a) => NestingV::Brace(a@),
        }
    }
}

/// The atom that opened a nesting frame.
pub open spec fn frame_atom(n: NestingV) -> AtomV {
    match n {
        NestingV::If(a) => a,
        NestingV::ElseIf(a) => a,
        NestingV::Else(a) => a,
        NestingV::StartRandom(a) => a,
        NestingV::PercentChance(a) => a,
        NestingV::Brace(a) => a,
    }
}

/// The parse/check state: one mutable context per checking session.
pub struct ParseState {
    /// The target compatibility for this map script.
    pub compatibility: Compatibility,
    /// Whether the map is a builtin map, which has extra directives
    /// available.
    pub is_builtin_map: bool,
    /// The stack of nesting constructs currently open.
    pub nesting: Vec<Nesting>,
    /// The current `<SECTION>`, if one has been opened.
    pub current_section: Option<Atom>,
    /// Builtin `#const` names for the active compatibility level;
    /// maintained by [`ParseState::set_compatibility`].
    pub builtin_consts: Vec<Vec<u8>>,
    /// Builtin `#define` names for the active compatibility level;
    /// maintained by [`ParseState::set_compatibility`].
    pub builtin_defines: Vec<Vec<u8>>,
    /// User `#const` names seen so far.
    pub seen_consts: Vec<Vec<u8>>,
    /// User `#define` names seen so far.
    pub seen_defines: Vec<Vec<u8>>,
    /// Names that may or may not exist at runtime (map-size and game-mode
    /// switches, and anything a caller registers).
    pub option_defines: Vec<Vec<u8>>,
    /// Whether the contiguous leading-comment header region has ended.
    pub end_of_headers: bool,
}

/// Mathematical image of a [`ParseState`].
#[verifier::ext_equal]
pub ghost struct StateV {
    pub compatibility: Compatibility,
    pub is_builtin_map: bool,
    pub nesting: Seq<NestingV>,
    pub current_section: Option<AtomV>,
    pub builtin_consts: Set<Seq<u8>>,
    pub builtin_defines: Set<Seq<u8>>,
    pub seen_consts: Set<Seq<u8>>,
    pub seen_defines: Set<Seq<u8>>,
    pub option_defines: Set<Seq<u8>>,
    pub end_of_headers: bool,
}

impl View for ParseState {
    type V = StateV;

    open spec fn view(&self) -> StateV {
        StateV {
            compatibility: self.compatibility,
            is_builtin_map: self.is_builtin_map,
            nesting: self.nesting@.map_values(|n: Nesting| n@),
            current_section: match &self.current_section {
                Some(a) => Some(a@),
                None => None,
            },
            builtin_consts: name_set(self.builtin_consts@),
            builtin_defines: name_set(self.builtin_defines@),
            seen_consts: name_set(self.seen_consts@),
            seen_defines: name_set(self.seen_defines@),
            option_defines: name_set(self.option_defines@),
            end_of_headers: self.end_of_headers,
        }
    }
}

/// A state whose compatibility was set to `c`: the builtin vocabulary is
/// re-derived for `c`, everything else stays.
pub open spec fn with_compat(sv: StateV, c: Compatibility) -> StateV {
    StateV {
        compatibility: c,
        builtin_consts: builtin_consts_upto(c.spec_level() as int),
        builtin_defines: builtin_defines_upto(c.spec_level() as int),
        ..sv
    }
}

/// Do two states agree on everything but the builtin vocabulary?
pub open spec fn eq_but_builtins(a: StateV, b: StateV) -> bool {
    &&& b.compatibility == a.compatibility
    &&& b.is_builtin_map == a.is_builtin_map
    &&& b.nesting == a.nesting
    &&& b.current_section == a.current_section
    &&& b.seen_consts == a.seen_consts
    &&& b.seen_defines == a.seen_defines
    &&& b.option_defines == a.option_defines
    &&& b.end_of_headers == a.end_of_headers
}

/// The builtin vocabulary matches the state's compatibility level.
pub open spec fn wf_state(sv: StateV) -> bool {
    &&& sv.builtin_consts == builtin_consts_upto(sv.compatibility.spec_level() as int)
    &&& sv.builtin_defines == builtin_defines_upto(sv.compatibility.spec_level() as int)
}

/// The state a fresh session starts from.
pub open spec fn initial_state(compatibility: Compatibility) -> StateV {
    StateV {
        compatibility,
        is_builtin_map: false,
        nesting: Seq::empty(),
        current_section: None,
        builtin_consts: builtin_consts_upto(compatibility.spec_level() as int),
        builtin_defines: builtin_defines_upto(compatibility.spec_level() as int),
        seen_consts: Set::empty(),
        seen_defines: Set::empty(),
        option_defines: spec_option_names(compatibility.spec_level() as int),
        end_of_headers: false,
    }
}

impl ParseState {
    /// The builtin vocabulary is always exactly the one derived for the
    /// active compatibility level.
    pub open spec fn wf(&self) -> bool {
        wf_state(self@)
    }

    /// Fresh state for one checking session.
    pub fn new(compatibility: Compatibility) -> (r: ParseState)
        ensures
            r@ == initial_state(compatibility),
            r.wf(),
    {
        let mut state = ParseState {
            compatibility,
            is_builtin_map: false,
            nesting: Vec::new(),
            current_section: None,
            builtin_consts: Vec::new(),
            builtin_defines: Vec::new(),
            seen_consts: Vec::new(),
            seen_defines: Vec::new(),
            option_defines: option_names(compatibility.level()),
            end_of_headers: false,
        };
        state.set_compatibility(compatibility);
        proof {
            assert(state@.nesting =~= Seq::<NestingV>::empty());
            assert(name_set(state.seen_consts@) =~= Set::<Seq<u8>>::empty());
            assert(name_set(state.seen_defines@) =~= Set::<Seq<u8>>::empty());
            assert(state@ =~~= initial_state(compatibility));
        }
        state
    }

    /// Track that a `#define` name may or may not exist from this point.
    ///
    /// These names are valid in `if` conditions, but not as command
    /// arguments.
    pub fn optional_define(&mut self, name: Vec<u8>)
        ensures
            final(self)@ == (StateV {
                option_defines: old(self)@.option_defines.insert(name@),
                ..old(self)@
            }),
    {
        names_insert(&mut self.option_defines, name);
        proof {
            assert(self@ =~~= (StateV {
                option_defines: old(self)@.option_defines.insert(name@),
                ..old(self)@
            }));
        }
    }

    /// Track that a `#define` name exists.
    pub fn define(&mut self, name: Vec<u8>)
        ensures
            final(self)@ == (StateV {
                seen_defines: old(self)@.seen_defines.insert(name@),
                ..old(self)@
            }),
    {
        names_insert(&mut self.seen_defines, name);
        proof {
            assert(self@ =~~= (StateV {
                seen_defines: old(self)@.seen_defines.insert(name@),
                ..old(self)@
            }));
        }
    }

    /// Track that a `#const` name exists.
    pub fn define_const(&mut self, name: Vec<u8>)
        ensures
            final(self)@ == (StateV {
                seen_consts: old(self)@.seen_consts.insert(name@),
                ..old(self)@
            }),
    {
        names_insert(&mut self.seen_consts, name);
        proof {
            assert(self@ =~~= (StateV {
                seen_consts: old(self)@.seen_consts.insert(name@),
                ..old(self)@
            }));
        }
    }

    /// Does a given `#define` name exist, as a user definition or a
    /// builtin one?
    pub fn has_define(&self, name: &[u8]) -> (r: bool)
        ensures
            r == (self@.seen_defines.contains(name@) || self@.builtin_defines.contains(name@)),
    {
        names_contains(&self.seen_defines, name) || names_contains(&self.builtin_defines, name)
    }

    /// May a given `#define` name exist at this point?
    pub fn may_have_define(&self, name: &[u8]) -> (r: bool)
        ensures
            r == (self@.seen_defines.contains(name@) || self@.builtin_defines.contains(name@)
                || self@.option_defines.contains(name@)),
    {
        self.has_define(name) || names_contains(&self.option_defines, name)
    }

    /// Does a given `#const` name exist, as a user definition or a builtin
    /// one?
    pub fn has_const(&self, name: &[u8]) -> (r: bool)
        ensures
            r == (self@.seen_consts.contains(name@) || self@.builtin_consts.contains(name@)),
    {
        names_contains(&self.seen_consts, name) || names_contains(&self.builtin_consts, name)
    }

    /// All the `#const` names that are currently available: the user ones
    /// seen so far, then the builtin ones.
    pub fn consts(&self) -> (r: Vec<Vec<u8>>)
        ensures
            name_set(r@) == self@.seen_consts.union(self@.builtin_consts),
    {
        let mut r = names_clone(&self.seen_consts);
        let mut builtin = names_clone(&self.builtin_consts);
        let ghost ra = r@.map_values(|x: Vec<u8>| x@);
        let ghost rb = builtin@.map_values(|x: Vec<u8>| x@);
        r.append(&mut builtin);
        proof {
            assert(r@.map_values(|x: Vec<u8>| x@) =~= ra + rb);
            lemma_to_set_union(ra, rb);
        }
        r
    }

    /// All the `#define` names that are currently available: the user ones
    /// seen so far, then the builtin ones.
    pub fn defines(&self) -> (r: Vec<Vec<u8>>)
        ensures
            name_set(r@) == self@.seen_defines.union(self@.builtin_defines),
    {
        let mut r = names_clone(&self.seen_defines);
        let mut builtin = names_clone(&self.builtin_defines);
        let ghost ra = r@.map_values(|x: Vec<u8>| x@);
        let ghost rb = builtin@.map_values(|x: Vec<u8>| x@);
        r.append(&mut builtin);
        proof {
            assert(r@.map_values(|x: Vec<u8>| x@) =~= ra + rb);
            lemma_to_set_union(ra, rb);
        }
        r
    }

    /// The compatibility mode the checker runs in.
    pub fn compatibility(&self) -> (r: Compatibility)
        ensures
            r == self@.compatibility,
    {
        self.compatibility
    }

    /// Set the compatibility mode the checker runs in.
    ///
    /// This rebuilds the builtin `#const` and `#define` vocabulary by
    /// parsing the bundled definition text of every level up to the new
    /// one with the ordinary parser.
    pub fn set_compatibility(&mut self, compatibility: Compatibility)
        ensures
            final(self)@ == with_compat(old(self)@, compatibility),
            final(self).wf(),
    {
        self.compatibility = compatibility;
        self.builtin_consts = Vec::new();
        self.builtin_defines = Vec::new();
        proof {
            assert(name_set(self.builtin_consts@) =~= Set::<Seq<u8>>::empty());
            assert(name_set(self.builtin_defines@) =~= Set::<Seq<u8>>::empty());
            assert(builtin_consts_upto(-1) == Set::<Seq<u8>>::empty());
        }
        let top = compatibility.level();
        proof {
            assert(top <= 6);
        }
        let mut l: u8 = 0;
        while l <= top
            invariant
                top <= 6,
                l <= top + 1,
                name_set(self.builtin_consts@) == builtin_consts_upto(l as int - 1),
                name_set(self.builtin_defines@) == builtin_defines_upto(l as int - 1),
                self.compatibility == compatibility,
                eq_but_builtins(with_compat(old(self)@, compatibility), self@),
            decreases top + 1 - l,
        {
            self.scan_definitions(l);
            l = l + 1;
        }
        proof {
            assert(self@ =~~= with_compat(old(self)@, compatibility));
        }
    }

    /// Feed the bundled definition text of one level through the parser
    /// and collect its `#const` and `#define` names into the builtin
    /// vocabulary.
    fn scan_definitions(&mut self, level: u8)
        ensures
            name_set(final(self).builtin_consts@) == name_set(old(self).builtin_consts@).union(
                crate::compat::const_names_from(
                    spec_parse(spec_defs_bytes(level as int), DEFS_FILE_ID),
                    0,
                ),
            ),
            name_set(final(self).builtin_defines@) == name_set(old(self).builtin_defines@).union(
                crate::compat::define_names_from(
                    spec_parse(spec_defs_bytes(level as int), DEFS_FILE_ID),
                    0,
                ),
            ),
            eq_but_builtins(old(self)@, final(self)@),
    {
        let source = crate::compat::defs_source(level);
        let source_bytes = source.as_bytes();
        proof {
            assert(source@ == crate::compat::spec_defs_chars(level as int));
            assert(source_bytes@ == source.spec_bytes());
            assert(source_bytes@ == vstd::utf8::encode_utf8(source@));
            assert(source_bytes@ == spec_defs_bytes(level as int));
        }
        let mut parser = Parser::new(DEFS_FILE_ID, source_bytes);
        let ghost items = spec_parse(spec_defs_bytes(level as int), DEFS_FILE_ID);
        let ghost base_consts = name_set(self.builtin_consts@);
        let ghost base_defines = name_set(self.builtin_defines@);
        proof {
            assert(parser.src() == spec_defs_bytes(level as int));
            assert(parse_from(parser.src(), parser.words(), 0) == items);
            assert(items.skip(0) =~= items);
        }
        let ghost mut k: int = 0;
        loop
            invariant
                parser.wf(),
                parser.src() == spec_defs_bytes(level as int),
                parse_from(parser.src(), parser.words(), 0) == items,
                0 <= k <= items.len(),
                parse_from(parser.src(), parser.words(), parser.pos()) == items.skip(k),
                name_set(self.builtin_consts@).union(
                    crate::compat::const_names_from(items, k),
                ) == base_consts.union(crate::compat::const_names_from(items, 0)),
                name_set(self.builtin_defines@).union(
                    crate::compat::define_names_from(items, k),
                ) == base_defines.union(crate::compat::define_names_from(items, 0)),
                eq_but_builtins(old(self)@, self@),
            ensures
                name_set(self.builtin_consts@) == base_consts.union(
                    crate::compat::const_names_from(items, 0),
                ),
                name_set(self.builtin_defines@) == base_defines.union(
                    crate::compat::define_names_from(items, 0),
                ),
                eq_but_builtins(old(self)@, self@),
            decreases items.len() - k,
        {
            let ghost pre_pos = parser.pos();
            let ghost src0 = parser.src();
            let ghost ws0 = parser.words();
            proof {
                parser.lemma_pos_bounds();
            }
            match parser.next() {
                Some((atom, _warnings)) => {
                    proof {
                        assert(pre_pos < ws0.len());
                        let st = crate::parser::parse_step(src0, ws0, pre_pos);
                        assert(parse_from(src0, ws0, pre_pos) == seq![(st.atom, st.warnings)]
                            + parse_from(src0, ws0, st.next));
                        assert(items.skip(k)[0] == (st.atom, st.warnings));
                        assert(items[k] == (st.atom, st.warnings));
                        assert(items.skip(k).drop_first() =~= items.skip(k + 1));
                        assert(parse_from(parser.src(), parser.words(), parser.pos())
                            == items.skip(k + 1));
                    }
                    let ghost pre_consts = name_set(self.builtin_consts@);
                    let ghost pre_defines = name_set(self.builtin_defines@);
                    match atom {
                        Atom::Const(_, name, _) => {
                            let ghost nv = name.value@;
                            names_insert(&mut self.builtin_consts, name.value);
                            proof {
                                assert(crate::compat::const_names_from(items, k)
                                    == crate::compat::const_names_from(items, k + 1).insert(nv));
                                assert(name_set(self.builtin_consts@).union(
                                    crate::compat::const_names_from(items, k + 1),
                                ) =~= pre_consts.union(crate::compat::const_names_from(items, k)));
                            }
                        },
                        Atom::Define(_, name) => {
                            let ghost nv = name.value@;
                            names_insert(&mut self.builtin_defines, name.value);
                            proof {
                                assert(crate::compat::define_names_from(items, k)
                                    == crate::compat::define_names_from(items, k + 1).insert(nv));
                                assert(name_set(self.builtin_defines@).union(
                                    crate::compat::define_names_from(items, k + 1),
                                ) =~= pre_defines.union(
                                    crate::compat::define_names_from(items, k),
                                ));
                            }
                        },
                        _ => {
                            proof {
                                assert(crate::compat::const_names_from(items, k)
                                    == crate::compat::const_names_from(items, k + 1));
                                assert(crate::compat::define_names_from(items, k)
                                    == crate::compat::define_names_from(items, k + 1));
                            }
                        },
                    }
                    proof {
                        k = k + 1;
                    }
                },
                None => {
                    proof {
                        assert(items.skip(k) =~= Seq::<
                            (AtomV, Seq<crate::parser::Warning>),
                        >::empty());
                        assert(k == items.len());
                        assert(crate::compat::const_names_from(items, k) == Set::<
                            Seq<u8>,
                        >::empty());
                        assert(crate::compat::define_names_from(items, k) == Set::<
                            Seq<u8>,
                        >::empty());
                        assert(name_set(self.builtin_consts@) =~= name_set(
                            self.builtin_consts@,
                        ).union(Set::empty()));
                        assert(name_set(self.builtin_defines@) =~= name_set(
                            self.builtin_defines@,
                        ).union(Set::empty()));
                    }
                    break ;
                },
            }
        }
    }
}

/// Union distributes over sequence concatenation's set view.
proof fn lemma_to_set_union(a: Seq<Seq<u8>>, b: Seq<Seq<u8>>)
    ensures
        (a + b).to_set() == a.to_set().union(b.to_set()),
{
    assert forall|x: Seq<u8>| (a + b).to_set().contains(x) <==> a.to_set().union(
        b.to_set(),
    ).contains(x) by {
        if (a + b).contains(x) {
            let i = choose|i: int| 0 <= i < (a + b).len() && (a + b)[i] == x;
            if i < a.len() {
                assert(a[i] == x);
                assert(a.contains(x));
            } else {
                assert(b[i - a.len()] == x);
                assert(b.contains(x));
            }
        }
        if a.contains(x) {
            let i = choose|i: int| 0 <= i < a.len() && a[i] == x;
            assert((a + b)[i] == x);
        }
        if b.contains(x) {
            let i = choose|i: int| 0 <= i < b.len() && b[i] == x;
            assert((a + b)[a.len() + i] == x);
        }
    }
    assert((a + b).to_set() =~= a.to_set().union(b.to_set()));
}

/// The "may exist" vocabulary that a fresh session starts with: map-size
/// switches always, and the game-mode switches of UserPatch from its
/// level on.
pub open spec fn spec_option_seq(level: int) -> Seq<Seq<u8>> {
    let base = seq![
        str_bytes("TINY_MAP"),
        str_bytes("SMALL_MAP"),
        str_bytes("MEDIUM_MAP"),
        str_bytes("LARGE_MAP"),
        str_bytes("HUGE_MAP"),
        str_bytes("GIGANTIC_MAP"),
        str_bytes("UP_AVAILABLE"),
        str_bytes("UP_EXTENSION"),
    ];
    if level >= LEVEL_USERPATCH14 as int {
        base + seq![
            str_bytes("FIXED_POSITIONS"),
            str_bytes("AI_PLAYERS"),
            str_bytes("CAPTURE_RELIC"),
            str_bytes("DEATH_MATCH"),
            str_bytes("DEFEND_WONDER"),
            str_bytes("KING_OT_HILL"),
            str_bytes("RANDOM_MAP"),
            str_bytes("REGICIDE"),
            str_bytes("TURBO_RANDOM_MAP"),
            str_bytes("WONDER_RACE"),
        ]
    } else {
        base
    }
}

/// The same vocabulary as a set.
pub open spec fn spec_option_names(level: int) -> Set<Seq<u8>> {
    spec_option_seq(level).to_set()
}

/// Build the initial "may exist" vocabulary for a level.
fn option_names(level: u8) -> (r: Vec<Vec<u8>>)
    ensures
        name_set(r@) == spec_option_names(level as int),
{
    let mut r: Vec<Vec<u8>> = Vec::new();
    push_name(&mut r, "TINY_MAP");
    push_name(&mut r, "SMALL_MAP");
    push_name(&mut r, "MEDIUM_MAP");
    push_name(&mut r, "LARGE_MAP");
    push_name(&mut r, "HUGE_MAP");
    push_name(&mut r, "GIGANTIC_MAP");
    push_name(&mut r, "UP_AVAILABLE");
    push_name(&mut r, "UP_EXTENSION");
    if level >= LEVEL_USERPATCH14 {
        push_name(&mut r, "FIXED_POSITIONS");
        push_name(&mut r, "AI_PLAYERS");
        push_name(&mut r, "CAPTURE_RELIC");
        push_name(&mut r, "DEATH_MATCH");
        push_name(&mut r, "DEFEND_WONDER");
        push_name(&mut r, "KING_OT_HILL");
        push_name(&mut r, "RANDOM_MAP");
        push_name(&mut r, "REGICIDE");
        push_name(&mut r, "TURBO_RANDOM_MAP");
        push_name(&mut r, "WONDER_RACE");
    }
    proof {
        assert(r@.map_values(|x: Vec<u8>| x@) =~= spec_option_seq(level as int));
    }
    r
}

/// Append the bytes of one literal name.
fn push_name(r: &mut Vec<Vec<u8>>, name: &str)
    ensures
        final(r)@.len() == old(r)@.len() + 1,
        final(r)@.map_values(|x: Vec<u8>| x@) == old(r)@.map_values(|x: Vec<u8>| x@).push(
            str_bytes(name),
        ),
{
    let ghost pre = r@.map_values(|x: Vec<u8>| x@);
    let mut v: Vec<u8> = Vec::new();
    crate::bytes::push_str(&mut v, name);
    proof {
        assert(v@ =~= str_bytes(name));
    }
    r.push(v);
    proof {
        assert(r@.map_values(|x: Vec<u8>| x@) =~= pre.push(str_bytes(name)));
    }
}


/// Index of the first non-whitespace byte at or after `i`.
pub open spec fn skip_ws(s: Seq<u8>, i: int) -> int
    decreases s.len() - i,
{
    if i >= s.len() {
        s.len() as int
    } else if is_space(s[i]) {
        skip_ws(s, i + 1)
    } else {
        i
    }
}

/// End of the last non-whitespace byte strictly before `j`.
pub open spec fn rskip_ws(s: Seq<u8>, j: int) -> int
    decreases j,
{
    if j <= 0 {
        0
    } else if is_space(s[j - 1]) {
        rskip_ws(s, j - 1)
    } else {
        j
    }
}

/// The byte string with surrounding whitespace removed.
pub open spec fn trim_bytes(s: Seq<u8>) -> Seq<u8> {
    let a = skip_ws(s, 0);
    let b = rskip_ws(s, s.len() as int);
    if a <= b {
        s.subrange(a, b)
    } else {
        Seq::empty()
    }
}

/// The byte string with a leading `* ` bullet removed, as comment bodies
/// carry on their continuation lines.
pub open spec fn strip_bullet(s: Seq<u8>) -> Seq<u8> {
    if s.len() >= 2 && s[0] == STAR && s[1] == SPACE {
        s.skip(2)
    } else {
        s
    }
}

/// Index of the first `: ` separator at or after `i`, or a negative value
/// when there is none.
pub open spec fn find_sep(s: Seq<u8>, i: int) -> int
    decreases s.len() - i,
{
    if i < 0 || i + 2 > s.len() {
        -1
    } else if s[i] == COLON && s[i + 1] == SPACE {
        i
    } else {
        find_sep(s, i + 1)
    }
}

/// Index of the first line feed at or after `i`, or the length when there
/// is none.
pub open spec fn find_nl(s: Seq<u8>, i: int) -> int
    decreases s.len() - i,
{
    if i < 0 || i >= s.len() {
        s.len() as int
    } else if s[i] == LINE_FEED {
        i
    } else {
        find_nl(s, i + 1)
    }
}

/// The right whitespace scan never moves right.
pub proof fn lemma_rskip_le(s: Seq<u8>, j: int)
    requires
        0 <= j,
    ensures
        rskip_ws(s, j) <= j,
    decreases j,
{
    if j > 0 && is_space(s[j - 1]) {
        lemma_rskip_le(s, j - 1);
    }
}

pub proof fn lemma_find_nl_bounds(s: Seq<u8>, i: int)
    requires
        0 <= i <= s.len(),
    ensures
        i <= find_nl(s, i) <= s.len(),
    decreases s.len() - i,
{
    if i < s.len() && s[i] != LINE_FEED {
        lemma_find_nl_bounds(s, i + 1);
    }
}

/// One line as `str::lines` yields it: a trailing carriage return is
/// dropped.
pub open spec fn strip_cr(s: Seq<u8>) -> Seq<u8> {
    if s.len() > 0 && s[s.len() - 1] == CARRIAGE_RETURN {
        s.drop_last()
    } else {
        s
    }
}

/// The lines of a text from position `i` on, split at line feeds, each
/// without its trailing carriage return; a final line ending is
/// optional.
pub open spec fn split_lines_from(s: Seq<u8>, i: int) -> Seq<Seq<u8>>
    decreases s.len() - i + 1,
    via split_lines_from_dec
{
    if i < 0 || i >= s.len() {
        Seq::empty()
    } else {
        let j = find_nl(s, i);
        seq![strip_cr(s.subrange(i, j))] + split_lines_from(s, j + 1)
    }
}

#[via_fn]
proof fn split_lines_from_dec(s: Seq<u8>, i: int) {
    if 0 <= i < s.len() {
        lemma_find_nl_bounds(s, i);
    }
}

/// The lines of a text.
pub open spec fn split_lines(s: Seq<u8>) -> Seq<Seq<u8>> {
    split_lines_from(s, 0)
}

/// The header names the checker understands.
#[derive(Debug, Hash, Clone, Copy, PartialEq, Eq, Structural)]
pub enum HeaderName {
    Compatibility,
}

/// The header a `key: value` line's key selects, matched
/// case-insensitively and ignoring surrounding whitespace.
pub open spec fn spec_parse_header_name(name: Seq<u8>) -> Option<HeaderName> {
    if trim_bytes(lower(name)) == str_bytes("compatibility") {
        Some(HeaderName::Compatibility)
    } else {
        None
    }
}

/// The compatibility level one header line selects, if any: the line is
/// trimmed, a `* ` bullet stripped, split at the first `: `, and both key
/// and recognized value are matched case-insensitively.
pub open spec fn spec_header_directive(line: Seq<u8>) -> Option<Compatibility> {
    let t = strip_bullet(trim_bytes(line));
    let i = find_sep(t, 0);
    if i < 0 {
        None
    } else if spec_parse_header_name(t.take(i)) is Some {
        spec_compat_alias(trim_bytes(lower(t.skip(i + 2))))
    } else {
        None
    }
}

/// The compatibility level after applying every recognized directive of a
/// header comment body, line by line in order.
pub open spec fn header_fold_from(c: Compatibility, s: Seq<u8>, i: int) -> Compatibility
    decreases s.len() - i + 1,
    via header_fold_dec
{
    if i < 0 || i >= s.len() {
        c
    } else {
        let j = find_nl(s, i);
        let line = strip_cr(s.subrange(i, j));
        let c2 = match spec_header_directive(line) {
            Some(nc) => nc,
            None => c,
        };
        header_fold_from(c2, s, j + 1)
    }
}

#[via_fn]
proof fn header_fold_dec(c: Compatibility, s: Seq<u8>, i: int) {
    if 0 <= i < s.len() {
        lemma_find_nl_bounds(s, i);
    }
}

/// The compatibility level a whole header comment selects.
pub open spec fn spec_header_comment(c: Compatibility, content: Seq<u8>) -> Compatibility {
    header_fold_from(c, content, 0)
}

/// Header detection for one atom: while the leading comment run is open,
/// comment bodies are scanned for directives; the first non-comment atom
/// closes the header region for good.
pub open spec fn spec_update_headers(sv: StateV, a: AtomV) -> StateV {
    if sv.end_of_headers {
        sv
    } else {
        match a {
            AtomV::Comment(_, content, _) => with_compat(
                sv,
                spec_header_comment(sv.compatibility, content),
            ),
            _ => StateV { end_of_headers: true, ..sv },
        }
    }
}

/// The full state update for one atom: header detection, then the symbol
/// tables and the current section.
pub open spec fn spec_state_update(sv: StateV, a: AtomV) -> StateV {
    let s1 = spec_update_headers(sv, a);
    match a {
        AtomV::Section(_) => StateV { current_section: Some(a), ..s1 },
        AtomV::Define(_, name) => StateV { seen_defines: s1.seen_defines.insert(name.value), ..s1 },
        AtomV::Const(_, name, _) => StateV { seen_consts: s1.seen_consts.insert(name.value), ..s1 },
        _ => s1,
    }
}

/// The trimmed byte range of a slice: start and end of
/// [`trim_bytes`]`(v)` within `v`.
pub fn trim_range(v: &[u8]) -> (r: (usize, usize))
    ensures
        r.0 <= r.1 <= v@.len(),
        v@.subrange(r.0 as int, r.1 as int) == trim_bytes(v@),
        r.0 == skip_ws(v@, 0),
{
    let mut a: usize = 0;
    while a < v.len() && crate::bytes::is_space_byte(v[a])
        invariant
            a <= v@.len(),
            skip_ws(v@, 0) == skip_ws(v@, a as int),
        decreases v@.len() - a,
    {
        a = a + 1;
    }
    assert(skip_ws(v@, 0) == a);
    let mut b: usize = v.len();
    while b > a && crate::bytes::is_space_byte(v[b - 1])
        invariant
            a <= b <= v@.len(),
            rskip_ws(v@, v@.len() as int) == rskip_ws(v@, b as int),
            a < v@.len() && !is_space(v@[a as int]) ==> b > a,
        decreases b,
    {
        b = b - 1;
    }
    if b == a {
        proof {
            if a < v@.len() {
                assert(!is_space(v@[a as int]));
                assert(false);
            }
            lemma_rskip_le(v@, v@.len() as int);
            assert(v@.subrange(a as int, b as int) =~= Seq::<u8>::empty());
            if skip_ws(v@, 0) <= rskip_ws(v@, v@.len() as int) {
                assert(v@.subrange(skip_ws(v@, 0), rskip_ws(v@, v@.len() as int)) =~= Seq::<
                    u8,
                >::empty());
            }
            assert(trim_bytes(v@) =~= Seq::<u8>::empty());
        }
        (a, b)
    } else {
        proof {
            assert(!is_space(v@[b - 1]));
            assert(rskip_ws(v@, v@.len() as int) == b);
        }
        (a, b)
    }
}

/// The trimmed, lowercased copy of a slice.
fn trim_lower(v: &[u8]) -> (r: Vec<u8>)
    ensures
        r@ == trim_bytes(lower(v@)),
{
    let lv = crate::bytes::to_lower(v);
    let (a, b) = trim_range(lv.as_slice());
    crate::bytes::sub_bytes(lv.as_slice(), a, b)
}

/// The header a `key: value` line's key selects, if any.
pub fn parse_header_name(name: &[u8]) -> (r: Option<HeaderName>)
    ensures
        r == spec_parse_header_name(name@),
{
    let t = trim_lower(name);
    if crate::bytes::eq_str(t.as_slice(), "compatibility") {
        Some(HeaderName::Compatibility)
    } else {
        None
    }
}

impl ParseState {
    /// Apply one recognized header to the state. An unrecognized value is
    /// silently ignored: the state stays as it was.
    pub fn set_header(&mut self, name: HeaderName, value: &[u8])
        requires
            old(self).wf(),
        ensures
            final(self)@ == (match spec_compat_alias(trim_bytes(lower(value@))) {
                Some(c) => with_compat(old(self)@, c),
                None => old(self)@,
            }),
            final(self).wf(),
    {
        match name {
            HeaderName::Compatibility => {
                let tv = trim_lower(value);
                match crate::compat::compat_alias(tv.as_slice()) {
                    Some(c) => {
                        self.set_compatibility(c);
                    },
                    None => {},
                }
            },
        }
    }

    /// Scan one header line for a `key: value` directive and apply it
    /// when recognized.
    fn apply_header_line(&mut self, line: &[u8])
        requires
            old(self).wf(),
        ensures
            final(self)@ == (match spec_header_directive(line@) {
                Some(c) => with_compat(old(self)@, c),
                None => old(self)@,
            }),
            final(self).wf(),
    {
        let (a, b) = trim_range(line);
        let t: Vec<u8> = if b - a >= 2 && line[a] == STAR && line[a + 1] == SPACE {
            crate::bytes::sub_bytes(line, a + 2, b)
        } else {
            crate::bytes::sub_bytes(line, a, b)
        };
        proof {
            let tr = trim_bytes(line@);
            if tr.len() >= 2 && tr[0] == STAR && tr[1] == SPACE {
                assert(line@.subrange(a + 2, b as int) =~= tr.skip(2));
            }
            assert(t@ == strip_bullet(trim_bytes(line@)));
        }
        let mut i: usize = 0;
        let mut found: bool = false;
        while t.len() >= 2 && i <= t.len() - 2 && !found
            invariant
                i <= t@.len(),
                find_sep(t@, 0) == find_sep(t@, i as int),
                found ==> i + 2 <= t@.len() && t@[i as int] == COLON && t@[i + 1] == SPACE,
                found ==> find_sep(t@, 0) == i,
            decreases t@.len() - i + (if found { 0int } else { 1int }),
        {
            if t[i] == COLON && t[i + 1] == SPACE {
                found = true;
            } else {
                i = i + 1;
            }
        }
        if found {
            let name = crate::bytes::sub_bytes(t.as_slice(), 0, i);
            let value = crate::bytes::sub_bytes(t.as_slice(), i + 2, t.len());
            proof {
                assert(name@ =~= t@.take(i as int));
                assert(value@ =~= t@.skip(i + 2));
            }
            match parse_header_name(name.as_slice()) {
                Some(h) => {
                    self.set_header(h, value.as_slice());
                },
                None => {},
            }
        } else {
            proof {
                assert(find_sep(t@, i as int) == -1);
            }
        }
    }

    /// Parse `key: value` directives out of a header comment body and
    /// apply recognized keys line by line.
    pub fn parse_header_comment(&mut self, content: &[u8])
        requires
            old(self).wf(),
        ensures
            final(self)@ == with_compat(
                old(self)@,
                spec_header_comment(old(self)@.compatibility, content@),
            ),
            final(self).wf(),
    {
        proof {
            assert(with_compat(old(self)@, old(self)@.compatibility) =~~= old(self)@);
        }
        let n = content.len();
        let mut pos: usize = 0;
        while pos < n
            invariant
                pos <= n,
                n == content@.len(),
                self.wf(),
                self@ == with_compat(old(self)@, self@.compatibility),
                header_fold_from(old(self)@.compatibility, content@, 0) == header_fold_from(
                    self@.compatibility,
                    content@,
                    pos as int,
                ),
            decreases n - pos,
        {
            let mut j: usize = pos;
            while j < n && content[j] != LINE_FEED
                invariant
                    pos <= j <= n,
                    n == content@.len(),
                    find_nl(content@, pos as int) == find_nl(content@, j as int),
                decreases n - j,
            {
                j = j + 1;
            }
            assert(find_nl(content@, pos as int) == j);
            let j2: usize = if j > pos && content[j - 1] == CARRIAGE_RETURN {
                j - 1
            } else {
                j
            };
            let line = crate::bytes::sub_bytes(content, pos, j2);
            proof {
                let raw = content@.subrange(pos as int, j as int);
                if j > pos && content@[j - 1] == CARRIAGE_RETURN {
                    assert(raw[raw.len() - 1] == CARRIAGE_RETURN);
                    assert(content@.subrange(pos as int, j2 as int) =~= raw.drop_last());
                } else {
                    if raw.len() > 0 {
                        assert(raw[raw.len() - 1] == content@[j - 1]);
                    }
                }
                assert(line@ == strip_cr(raw));
            }
            self.apply_header_line(line.as_slice());
            proof {
                assert(self@ =~~= with_compat(old(self)@, self@.compatibility));
            }
            if j < n {
                pos = j + 1;
            } else {
                pos = n;
                proof {
                    assert(header_fold_from(self@.compatibility, content@, j + 1)
                        == self@.compatibility);
                }
            }
        }
        proof {
            assert(self@ =~~= with_compat(
                old(self)@,
                spec_header_comment(old(self)@.compatibility, content@),
            ));
        }
    }

    /// Run header-directive detection for one atom.
    pub fn update_headers(&mut self, atom: &Atom)
        requires
            old(self).wf(),
        ensures
            final(self)@ == spec_update_headers(old(self)@, atom@),
            final(self).wf(),
    {
        if self.end_of_headers {
            return ;
        }
        match atom {
            Atom::Comment(_, content, _) => {
                self.parse_header_comment(content.as_slice());
            },
            _ => {
                self.end_of_headers = true;
                proof {
                    assert(self@ =~~= (StateV { end_of_headers: true, ..old(self)@ }));
                }
            },
        }
    }

    /// Update the state upon reading a new atom: header detection, then
    /// the symbol tables and the current section.
    pub fn update(&mut self, atom: &Atom)
        requires
            old(self).wf(),
        ensures
            final(self)@ == spec_state_update(old(self)@, atom@),
            final(self).wf(),
    {
        self.update_headers(atom);
        let ghost s1 = self@;
        match atom {
            Atom::Section(_) => {
                self.current_section = Some(atom.clone());
                proof {
                    assert(self@ =~~= (StateV { current_section: Some(atom@), ..s1 }));
                }
            },
            Atom::Define(_, name) => {
                let nv = crate::bytes::sub_bytes(name.value.as_slice(), 0, name.value.len());
                proof {
                    assert(nv@ =~= name.value@);
                }
                self.define(nv);
            },
            Atom::Const(_, name, _) => {
                let nv = crate::bytes::sub_bytes(name.value.as_slice(), 0, name.value.len());
                proof {
                    assert(nv@ =~= name.value@);
                }
                self.define_const(nv);
            },
            _ => {},
        }
    }
}


/// The top of the nesting stack.
pub open spec fn stack_top(stack: Seq<NestingV>) -> Option<NestingV> {
    if stack.len() > 0 {
        Some(stack[stack.len() - 1])
    } else {
        None
    }
}

/// The note text pointing back at a frame's opener.
pub open spec fn frame_note(n: NestingV) -> Seq<char> {
    match n {
        NestingV::Brace(_) => "Matches this open brace `{`"@,
        NestingV::If(_) => "Matches this `if`"@,
        NestingV::ElseIf(_) => "Matches this `elseif`"@,
        NestingV::Else(_) => "Matches this `else`"@,
        NestingV::StartRandom(_) => "Matches this `start_random`"@,
        NestingV::PercentChance(_) => "Matches this `percent_chance`"@,
    }
}

/// The diagnostic an unbalanced delimiter produces: an error at the
/// offending atom, with a note pointing at the mismatched opener when one
/// is open, or a message naming its total absence.
pub open spec fn spec_unbalanced_warning(
    name: Seq<char>,
    end: AtomV,
    top: Option<NestingV>,
) -> WarningV {
    match top {
        Some(n) => {
            let base = spec_new_warning(
                Severity::Error,
                spec_file_id(end),
                spec_span(end),
                "Unbalanced `"@ + name + "`"@,
            );
            WarningV {
                diagnostic: DiagnosticV {
                    secondary_labels: seq![
                        LabelV {
                            file_id: spec_file_id(frame_atom(n)),
                            span: spec_span(frame_atom(n)),
                            message: frame_note(n),
                        },
                    ],
                    ..base.diagnostic
                },
                ..base
            }
        },
        None => spec_new_warning(
            Severity::Error,
            spec_file_id(end),
            spec_span(end),
            "Unbalanced `"@ + name + "`\u{2013}nothing is open"@,
        ),
    }
}

/// One step of the nesting machine.
#[verifier::ext_equal]
pub ghost struct NestStepV {
    pub stack: Seq<NestingV>,
    pub warning: Option<WarningV>,
}

/// The nesting-balance machine: how one atom changes the stack, and the
/// diagnostic it raises on an imbalance. On a mismatch the stack is left
/// as it stands (except that `percent_chance` and `end_random` first
/// absorb a trailing sibling `percent_chance` frame), and checking goes
/// on.
pub open spec fn nest_update(stack: Seq<NestingV>, a: AtomV) -> NestStepV {
    match a {
        AtomV::OpenBlock(_) => NestStepV {
            stack: stack.push(NestingV::Brace(a)),
            warning: None,
        },
        AtomV::CloseBlock(_) => if stack.len() > 0 && stack.last() is Brace {
            NestStepV { stack: stack.drop_last(), warning: None }
        } else {
            NestStepV { stack, warning: Some(spec_unbalanced_warning("}"@, a, stack_top(stack))) }
        },
        AtomV::If(_, _) => NestStepV { stack: stack.push(NestingV::If(a)), warning: None },
        AtomV::ElseIf(_, _) => if stack.len() > 0 && (stack.last() is If || stack.last()
            is ElseIf) {
            NestStepV { stack: stack.drop_last().push(NestingV::ElseIf(a)), warning: None }
        } else {
            NestStepV {
                stack,
                warning: Some(spec_unbalanced_warning("elseif"@, a, stack_top(stack))),
            }
        },
        AtomV::Else(_) => if stack.len() > 0 && (stack.last() is If || stack.last() is ElseIf) {
            NestStepV { stack: stack.drop_last().push(NestingV::Else(a)), warning: None }
        } else {
            NestStepV {
                stack,
                warning: Some(spec_unbalanced_warning("else"@, a, stack_top(stack))),
            }
        },
        AtomV::EndIf(_) => if stack.len() > 0 && (stack.last() is If || stack.last() is ElseIf
            || stack.last() is Else) {
            NestStepV { stack: stack.drop_last(), warning: None }
        } else {
            NestStepV {
                stack,
                warning: Some(spec_unbalanced_warning("endif"@, a, stack_top(stack))),
            }
        },
        AtomV::StartRandom(_) => NestStepV {
            stack: stack.push(NestingV::StartRandom(a)),
            warning: None,
        },
        AtomV::PercentChance(_, _) => {
            let s1 = if stack.len() > 0 && stack.last() is PercentChance {
                stack.drop_last()
            } else {
                stack
            };
            if s1.len() > 0 && s1.last() is StartRandom {
                NestStepV { stack: s1.push(NestingV::PercentChance(a)), warning: None }
            } else {
                NestStepV {
                    stack: s1,
                    warning: Some(spec_unbalanced_warning("percent_chance"@, a, stack_top(s1))),
                }
            }
        },
        AtomV::EndRandom(_) => {
            let s1 = if stack.len() > 0 && stack.last() is PercentChance {
                stack.drop_last()
            } else {
                stack
            };
            if s1.len() > 0 && s1.last() is StartRandom {
                NestStepV { stack: s1.drop_last(), warning: None }
            } else {
                NestStepV {
                    stack: s1,
                    warning: Some(spec_unbalanced_warning("end_random"@, a, stack_top(s1))),
                }
            }
        },
        _ => NestStepV { stack, warning: None },
    }
}

/// Build the unbalanced-delimiter diagnostic.
fn unbalanced_error(name: &str, end: &Atom, nest: Option<&Nesting>) -> (r: Warning)
    ensures
        r@ == spec_unbalanced_warning(
            name@,
            end@,
            match nest {
                Some(n) => Some((*n)@),
                None => None,
            },
        ),
{
    let mut msg = "Unbalanced `".to_owned();
    msg.append(name);
    match nest {
        Some(n) => {
            msg.append("`");
            proof {
                assert(msg@ =~= "Unbalanced `"@ + name@ + "`"@);
            }
            let w = end.error(msg);
            let (opener, note): (&Atom, &str) = match n {
                Nesting::Brace(a) => (a, "Matches this open brace `{`"),
                Nesting::If(a) => (a, "Matches this `if`"),
                Nesting::ElseIf(a) => (a, "Matches this `elseif`"),
                Nesting::Else(a) => (a, "Matches this `else`"),
                Nesting::StartRandom(a) => (a, "Matches this `start_random`"),
                Nesting::PercentChance(a) => (a, "Matches this `percent_chance`"),
            };
            let r = w.note_at(opener.file_id(), opener.span(), note);
            proof {
                assert(r@ =~~= spec_unbalanced_warning(name@, end@, Some((*n)@)));
            }
            r
        },
        None => {
            msg.append("`\u{2013}nothing is open");
            proof {
                assert(msg@ =~= "Unbalanced `"@ + name@ + "`\u{2013}nothing is open"@);
            }
            let r = end.error(msg);
            proof {
                assert(r@ =~~= spec_unbalanced_warning(name@, end@, None));
            }
            r
        },
    }
}

impl ParseState {
    /// Take the top frame off the stack.
    fn pop_frame(&mut self)
        requires
            old(self).nesting@.len() > 0,
        ensures
            final(self)@ == (StateV { nesting: old(self)@.nesting.drop_last(), ..old(self)@ }),
    {
        self.nesting.pop();
        proof {
            assert(self.nesting@.map_values(|x: Nesting| x@) =~= old(
                self,
            ).nesting@.map_values(|x: Nesting| x@).drop_last());
            assert(self@ =~~= (StateV { nesting: old(self)@.nesting.drop_last(), ..old(self)@ }));
        }
    }

    /// Put a new frame on the stack.
    fn push_frame(&mut self, f: Nesting)
        ensures
            final(self)@ == (StateV { nesting: old(self)@.nesting.push(f@), ..old(self)@ }),
    {
        let ghost fv = f@;
        self.nesting.push(f);
        proof {
            assert(self.nesting@.map_values(|x: Nesting| x@) =~= old(
                self,
            ).nesting@.map_values(|x: Nesting| x@).push(fv));
            assert(self@ =~~= (StateV { nesting: old(self)@.nesting.push(fv), ..old(self)@ }));
        }
    }

    /// Update the nesting stack upon reading a new atom, reporting an
    /// error when the update reveals an imbalance.
    pub fn update_nesting(&mut self, atom: &Atom) -> (r: Option<Warning>)
        ensures
            ({
                let st = nest_update(old(self)@.nesting, atom@);
                &&& final(self)@ == (StateV { nesting: st.stack, ..old(self)@ })
                &&& (match r {
                    Some(w) => st.warning == Some(w@),
                    None => st.warning is None,
                })
            }),
    {
        let ghost stack0 = self@.nesting;
        match atom {
            Atom::OpenBlock(_) => {
                self.push_frame(Nesting::Brace(atom.clone()));
                None
            },
            Atom::CloseBlock(_) => {
                let n = self.nesting.len();
                if n > 0 {
                    let top_is_brace = match &self.nesting[n - 1] {
                        Nesting::Brace(_) => true,
                        _ => false,
                    };
                    proof {
                        assert(stack0[n - 1] == self.nesting@[n - 1 as int]@);
                    }
                    if top_is_brace {
                        self.pop_frame();
                        return None;
                    }
                    return Some(unbalanced_error("}", atom, Some(&self.nesting[n - 1])));
                }
                Some(unbalanced_error("}", atom, None))
            },
            Atom::If(_, _) => {
                self.push_frame(Nesting::If(atom.clone()));
                None
            },
            Atom::ElseIf(_, _) => {
                let n = self.nesting.len();
                let top_matches = n > 0 && (match &self.nesting[n - 1] {
                    Nesting::If(_) | Nesting::ElseIf(_) => true,
                    _ => false,
                });
                proof {
                    if n > 0 {
                        assert(stack0[n - 1] == self.nesting@[n - 1 as int]@);
                    }
                }
                if top_matches {
                    self.pop_frame();
                    self.push_frame(Nesting::ElseIf(atom.clone()));
                    None
                } else if n > 0 {
                    Some(unbalanced_error("elseif", atom, Some(&self.nesting[n - 1])))
                } else {
                    Some(unbalanced_error("elseif", atom, None))
                }
            },
            Atom::Else(_) => {
                let n = self.nesting.len();
                let top_matches = n > 0 && (match &self.nesting[n - 1] {
                    Nesting::If(_) | Nesting::ElseIf(_) => true,
                    _ => false,
                });
                proof {
                    if n > 0 {
                        assert(stack0[n - 1] == self.nesting@[n - 1 as int]@);
                    }
                }
                if top_matches {
                    self.pop_frame();
                    self.push_frame(Nesting::Else(atom.clone()));
                    None
                } else if n > 0 {
                    Some(unbalanced_error("else", atom, Some(&self.nesting[n - 1])))
                } else {
                    Some(unbalanced_error("else", atom, None))
                }
            },
            Atom::EndIf(_) => {
                let n = self.nesting.len();
                let top_matches = n > 0 && (match &self.nesting[n - 1] {
                    Nesting::If(_) | Nesting::ElseIf(_) | Nesting::Else(_) => true,
                    _ => false,
                });
                proof {
                    if n > 0 {
                        assert(stack0[n - 1] == self.nesting@[n - 1 as int]@);
                    }
                }
                if top_matches {
                    self.pop_frame();
                    None
                } else if n > 0 {
                    Some(unbalanced_error("endif", atom, Some(&self.nesting[n - 1])))
                } else {
                    Some(unbalanced_error("endif", atom, None))
                }
            },
            Atom::StartRandom(_) => {
                self.push_frame(Nesting::StartRandom(atom.clone()));
                None
            },
            Atom::PercentChance(_, _) => {
                self.absorb_percent_chance();
                let ghost s1 = self@.nesting;
                let n = self.nesting.len();
                let top_is_random = n > 0 && (match &self.nesting[n - 1] {
                    Nesting::StartRandom(_) => true,
                    _ => false,
                });
                proof {
                    if n > 0 {
                        assert(s1[n - 1] == self.nesting@[n - 1 as int]@);
                    }
                }
                if top_is_random {
                    self.push_frame(Nesting::PercentChance(atom.clone()));
                    None
                } else if n > 0 {
                    Some(unbalanced_error("percent_chance", atom, Some(&self.nesting[n - 1])))
                } else {
                    Some(unbalanced_error("percent_chance", atom, None))
                }
            },
            Atom::EndRandom(_) => {
                self.absorb_percent_chance();
                let ghost s1 = self@.nesting;
                let n = self.nesting.len();
                let top_is_random = n > 0 && (match &self.nesting[n - 1] {
                    Nesting::StartRandom(_) => true,
                    _ => false,
                });
                proof {
                    if n > 0 {
                        assert(s1[n - 1] == self.nesting@[n - 1 as int]@);
                    }
                }
                if top_is_random {
                    self.pop_frame();
                    None
                } else if n > 0 {
                    Some(unbalanced_error("end_random", atom, Some(&self.nesting[n - 1])))
                } else {
                    Some(unbalanced_error("end_random", atom, None))
                }
            },
            _ => { None },
        }
    }

    /// A `percent_chance` branch closes its preceding sibling: take a
    /// trailing `percent_chance` frame off the stack if one is on top.
    fn absorb_percent_chance(&mut self)
        ensures
            final(self)@ == (StateV {
                nesting: (if old(self)@.nesting.len() > 0 && old(
                    self,
                )@.nesting.last() is PercentChance {
                    old(self)@.nesting.drop_last()
                } else {
                    old(self)@.nesting
                }),
                ..old(self)@
            }),
    {
        let n = self.nesting.len();
        if n > 0 {
            let top_is_pc = match &self.nesting[n - 1] {
                Nesting::PercentChance(_) => true,
                _ => false,
            };
            proof {
                assert(old(self)@.nesting[n - 1] == self.nesting@[n - 1 as int]@);
            }
            if top_is_pc {
                self.pop_frame();
            }
        }
    }

    /// The constructs still open at end of input, bottom first: one
    /// error-severity diagnostic at each unclosed opener. A trailing
    /// `percent_chance` frame is part of its enclosing `start_random`
    /// and is not reported separately.
    pub fn unclosed_warnings(&self) -> (r: Vec<Warning>)
        ensures
            r@.map_values(|w: Warning| w@) == spec_unclosed(self@.nesting, 0),
    {
        let ghost stack = self@.nesting;
        let mut r: Vec<Warning> = Vec::new();
        let mut k: usize = 0;
        while k < self.nesting.len()
            invariant
                k <= self.nesting@.len(),
                stack == self@.nesting,
                stack.len() == self.nesting@.len(),
                spec_unclosed(stack, 0) == r@.map_values(|w: Warning| w@) + spec_unclosed(
                    stack,
                    k as int,
                ),
            decreases self.nesting@.len() - k,
        {
            let ghost pre = r@.map_values(|w: Warning| w@);
            proof {
                assert(stack[k as int] == self.nesting@[k as int]@);
            }
            let (opener, name, is_pc): (&Atom, &str, bool) = match &self.nesting[k] {
                Nesting::Brace(a) => (a, "{", false),
                Nesting::If(a) => (a, "if", false),
                Nesting::ElseIf(a) => (a, "elseif", false),
                Nesting::Else(a) => (a, "else", false),
                Nesting::StartRandom(a) => (a, "start_random", false),
                Nesting::PercentChance(a) => (a, "percent_chance", true),
            };
            if !is_pc {
                let mut msg = "Unclosed `".to_owned();
                msg.append(name);
                msg.append("`");
                proof {
                    assert(msg@ =~= "Unclosed `"@ + name@ + "`"@);
                }
                let w = opener.error(msg);
                r.push(w);
                proof {
                    assert(r@.map_values(|w: Warning| w@) =~= pre.push(
                        spec_unclosed_warning(stack[k as int]),
                    ));
                    assert(pre.push(spec_unclosed_warning(stack[k as int])) + spec_unclosed(
                        stack,
                        k + 1,
                    ) =~= pre + spec_unclosed(stack, k as int));
                }
            }
            k = k + 1;
        }
        proof {
            assert(spec_unclosed(stack, k as int) =~= Seq::<WarningV>::empty());
            assert(r@.map_values(|w: Warning| w@) =~= spec_unclosed(stack, 0));
        }
        r
    }
}

/// The delimiter word a frame kind was opened with.
pub open spec fn frame_name(n: NestingV) -> Seq<char> {
    match n {
        NestingV::Brace(_) => "{"@,
        NestingV::If(_) => "if"@,
        NestingV::ElseIf(_) => "elseif"@,
        NestingV::Else(_) => "else"@,
        NestingV::StartRandom(_) => "start_random"@,
        NestingV::PercentChance(_) => "percent_chance"@,
    }
}

/// The diagnostic one unclosed frame produces.
pub open spec fn spec_unclosed_warning(n: NestingV) -> WarningV {
    spec_new_warning(
        Severity::Error,
        spec_file_id(frame_atom(n)),
        spec_span(frame_atom(n)),
        "Unclosed `"@ + frame_name(n) + "`"@,
    )
}

/// The diagnostics for every frame still open at end of input, from
/// position `k` on, skipping `percent_chance` frames.
pub open spec fn spec_unclosed(stack: Seq<NestingV>, k: int) -> Seq<WarningV>
    decreases stack.len() - k,
{
    if k < 0 || k >= stack.len() {
        Seq::empty()
    } else {
        let rest = spec_unclosed(stack, k + 1);
        match stack[k] {
            NestingV::PercentChance(_) => rest,
            f => seq![spec_unclosed_warning(f)] + rest,
        }
    }
}


/// One whole checker step for one atom: the state update, then the
/// nesting update.
pub open spec fn spec_checker_step(sv: StateV, a: AtomV) -> StateV {
    let s1 = spec_state_update(sv, a);
    StateV { nesting: nest_update(s1.nesting, a).stack, ..s1 }
}

/// All the diagnostics one atom produces: the lint pipeline, run against
/// the state as of all preceding atoms, followed by the nesting
/// diagnostic if the atom unbalances the stack.
pub open spec fn spec_atom_warnings(lints: Seq<Lint>, sv: StateV, a: AtomV) -> Seq<WarningV> {
    spec_pipeline(lints, sv, a, 0) + (match nest_update(spec_state_update(sv, a).nesting, a).warning {
        Some(w) => seq![w],
        None => Seq::empty(),
    })
}

/// Configuration for a checking session: the ordered lints to run and the
/// compatibility level to start from.
pub struct CheckerBuilder {
    /// The lints to run, in order.
    pub lints: Vec<Lint>,
    /// The compatibility level the session starts at.
    pub compatibility: Compatibility,
}

impl Default for CheckerBuilder {
    /// A builder with no lints, targeting the default compatibility.
    fn default() -> (r: CheckerBuilder)
        ensures
            r.lints@ == Seq::<Lint>::empty(),
            r.compatibility == Compatibility::Conquerors,
    {
        CheckerBuilder { lints: Vec::new(), compatibility: Compatibility::Conquerors }
    }
}

impl CheckerBuilder {
    /// Add one lint to the pipeline.
    pub fn with_lint(self, lint: Lint) -> (r: CheckerBuilder)
        ensures
            r.lints@ == self.lints@.push(lint),
            r.compatibility == self.compatibility,
    {
        let mut b = self;
        b.lints.push(lint);
        b
    }

    /// Set the compatibility level the session starts at.
    pub fn compatibility(self, compatibility: Compatibility) -> (r: CheckerBuilder)
        ensures
            r.lints@ == self.lints@,
            r.compatibility == compatibility,
    {
        CheckerBuilder { compatibility, ..self }
    }

    /// Build the checking session.
    pub fn build(self) -> (r: Checker)
        ensures
            r.lints@ == self.lints@,
            r.state@ == initial_state(self.compatibility),
            r.wf(),
    {
        let state = ParseState::new(self.compatibility);
        Checker { lints: self.lints, state }
    }
}

/// One checking session: the lint pipeline and the shared state it runs
/// against.
pub struct Checker {
    /// The lints to run for each atom, in order.
    pub lints: Vec<Lint>,
    /// The shared parse/check state.
    pub state: ParseState,
}

impl Checker {
    /// The session's state invariant.
    pub open spec fn wf(&self) -> bool {
        self.state.wf()
    }

    /// Start configuring a session.
    pub fn builder() -> (r: CheckerBuilder)
        ensures
            r.lints@ == Seq::<Lint>::empty(),
            r.compatibility == Compatibility::Conquerors,
    {
        CheckerBuilder::default()
    }

    /// Consume one atom: run every lint against the state as of all
    /// preceding atoms, then commit the state update and the nesting
    /// update, collecting all diagnostics in order.
    pub fn write_atom(&mut self, atom: &Atom) -> (r: Vec<Warning>)
        requires
            old(self).wf(),
        ensures
            final(self).wf(),
            final(self).lints@ == old(self).lints@,
            final(self).state@ == spec_checker_step(old(self).state@, atom@),
            r@.map_values(|w: Warning| w@) == spec_atom_warnings(
                old(self).lints@,
                old(self).state@,
                atom@,
            ),
    {
        let ghost sv0 = self.state@;
        let ghost lints0 = self.lints@;
        let is_comment = match atom {
            Atom::Comment(_, _, _) => true,
            _ => false,
        };
        let mut warnings: Vec<Warning> = Vec::new();
        let mut i: usize = 0;
        while i < self.lints.len()
            invariant
                i <= self.lints@.len(),
                lints0 == self.lints@,
                sv0 == self.state@,
                self.state == old(self).state,
                is_comment == (atom@ is Comment),
                spec_pipeline(lints0, sv0, atom@, 0) == warnings@.map_values(|w: Warning| w@)
                    + spec_pipeline(lints0, sv0, atom@, i as int),
            decreases self.lints@.len() - i,
        {
            let ghost base = warnings@.map_values(|w: Warning| w@);
            let lint = self.lints[i];
            let skip_lint = is_comment && !lint.run_inside_comments();
            if !skip_lint {
                let mut produced = lint.lint_atom(&self.state, atom);
                let name = lint.name();
                let ghost orig = spec_lint_atom(lint, sv0, atom@);
                let ghost mut j: int = 0;
                while produced.len() > 0
                    invariant
                        0 <= j <= orig.len(),
                        produced@.map_values(|w: Warning| w@) == orig.skip(j),
                        warnings@.map_values(|w: Warning| w@) == base + orig.take(j).map_values(
                            |w: WarningV| spec_tag(w, spec_lint_name(lint)),
                        ),
                        name@ == spec_lint_name(lint),
                    decreases produced@.len(),
                {
                    let ghost pre = warnings@.map_values(|w: Warning| w@);
                    let w = produced.remove(0);
                    proof {
                        assert(w@ == orig.skip(j)[0]);
                        assert(produced@.map_values(|x: Warning| x@) =~= orig.skip(j).drop_first());
                        assert(orig.skip(j).drop_first() =~= orig.skip(j + 1));
                        assert(orig.skip(j)[0] == orig[j]);
                    }
                    let tagged = w.lint(name);
                    warnings.push(tagged);
                    proof {
                        assert(warnings@.map_values(|x: Warning| x@) =~= pre.push(
                            spec_tag(orig[j], spec_lint_name(lint)),
                        ));
                        j = j + 1;
                        assert(orig.take(j).drop_last() =~= orig.take(j - 1));
                        assert(orig.take(j)[j - 1] == orig[j - 1]);
                        assert(orig.take(j).map_values(
                            |w: WarningV| spec_tag(w, spec_lint_name(lint)),
                        ) =~= orig.take(j - 1).map_values(
                            |w: WarningV| spec_tag(w, spec_lint_name(lint)),
                        ).push(spec_tag(orig[j - 1], spec_lint_name(lint))));
                        assert(warnings@.map_values(|x: Warning| x@) =~= base + orig.take(
                            j,
                        ).map_values(|w: WarningV| spec_tag(w, spec_lint_name(lint))));
                    }
                }
                proof {
                    assert(orig.skip(j) =~= Seq::<WarningV>::empty());
                    assert(j == orig.len());
                    assert(orig.take(j) =~= orig);
                    assert(warnings@.map_values(|x: Warning| x@) =~= base + orig.map_values(
                        |w: WarningV| spec_tag(w, spec_lint_name(lint)),
                    ));
                }
            }
            i = i + 1;
        }
        proof {
            assert(spec_pipeline(lints0, sv0, atom@, i as int) =~= Seq::<WarningV>::empty());
        }
        self.state.update(atom);
        match self.state.update_nesting(atom) {
            Some(nest_warning) => {
                let ghost pre = warnings@.map_values(|w: Warning| w@);
                let ghost nw = nest_warning@;
                warnings.push(nest_warning);
                proof {
                    assert(warnings@.map_values(|w: Warning| w@) =~= pre.push(nw));
                    assert(warnings@.map_values(|w: Warning| w@) =~= spec_atom_warnings(
                        lints0,
                        sv0,
                        atom@,
                    ));
                }
            },
            None => {
                proof {
                    assert(warnings@.map_values(|w: Warning| w@) + Seq::<WarningV>::empty()
                        =~= warnings@.map_values(|w: Warning| w@));
                    assert(warnings@.map_values(|w: Warning| w@) =~= spec_atom_warnings(
                        lints0,
                        sv0,
                        atom@,
                    ));
                }
            },
        }
        proof {
            assert(self.state@ =~~= spec_checker_step(sv0, atom@));
        }
        warnings
    }
}


/// The state after consuming every atom of `[k, len)` in order.
pub open spec fn run_steps(sv: StateV, atoms: Seq<AtomV>, k: int) -> StateV
    decreases atoms.len() - k,
{
    if k < 0 || k >= atoms.len() {
        sv
    } else {
        run_steps(spec_checker_step(sv, atoms[k]), atoms, k + 1)
    }
}

/// The names defined by `#define` atoms of `[k, len)`.
pub open spec fn defined_names(atoms: Seq<AtomV>, k: int) -> Set<Seq<u8>>
    decreases atoms.len() - k,
{
    if k < 0 || k >= atoms.len() {
        Set::empty()
    } else {
        let rest = defined_names(atoms, k + 1);
        match atoms[k] {
            AtomV::Define(_, name) => rest.insert(name.value),
            _ => rest,
        }
    }
}

/// The names defined by `#const` atoms of `[k, len)`.
pub open spec fn defined_const_names(atoms: Seq<AtomV>, k: int) -> Set<Seq<u8>>
    decreases atoms.len() - k,
{
    if k < 0 || k >= atoms.len() {
        Set::empty()
    } else {
        let rest = defined_const_names(atoms, k + 1);
        match atoms[k] {
            AtomV::Const(_, name, _) => rest.insert(name.value),
            _ => rest,
        }
    }
}

/// Symbol visibility follows source order: after consuming a stream of
/// atoms, the user-defined vocabulary is exactly the vocabulary already
/// seen plus the names the stream defines — no more, no less. In
/// particular, a `#define A` earlier in the stream makes `A` visible to
/// everything after it, and a name nobody has defined yet is not
/// visible; each lint observes the state as of the atoms before its
/// own, because the checker commits the update for an atom only after
/// the lints ran on it.
pub proof fn lemma_symbol_visibility(sv: StateV, atoms: Seq<AtomV>, k: int)
    requires
        0 <= k <= atoms.len(),
    ensures
        run_steps(sv, atoms, k).seen_defines == sv.seen_defines.union(defined_names(atoms, k)),
        run_steps(sv, atoms, k).seen_consts == sv.seen_consts.union(
            defined_const_names(atoms, k),
        ),
    decreases atoms.len() - k,
{
    if k < atoms.len() {
        let sv2 = spec_checker_step(sv, atoms[k]);
        lemma_symbol_visibility(sv2, atoms, k + 1);
        match atoms[k] {
            AtomV::Define(_, name) => {
                assert(sv2.seen_defines =~= sv.seen_defines.insert(name.value));
                assert(sv2.seen_consts =~= sv.seen_consts);
            },
            AtomV::Const(_, name, _) => {
                assert(sv2.seen_consts =~= sv.seen_consts.insert(name.value));
                assert(sv2.seen_defines =~= sv.seen_defines);
            },
            _ => {
                assert(sv2.seen_defines =~= sv.seen_defines);
                assert(sv2.seen_consts =~= sv.seen_consts);
            },
        }
        assert(run_steps(sv, atoms, k).seen_defines =~= sv.seen_defines.union(
            defined_names(atoms, k),
        ));
        assert(run_steps(sv, atoms, k).seen_consts =~= sv.seen_consts.union(
            defined_const_names(atoms, k),
        ));
    } else {
        assert(run_steps(sv, atoms, k).seen_defines =~= sv.seen_defines.union(
            defined_names(atoms, k),
        ));
        assert(run_steps(sv, atoms, k).seen_consts =~= sv.seen_consts.union(
            defined_const_names(atoms, k),
        ));
    }
}

} // verus!
