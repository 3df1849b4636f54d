//! Validation of an object declaration's property list.
//!
//! The parser hands over the raw entries — string literals and
//! `session`/`system` markers — in source order.  Each string literal is
//! classified by shape: one that begins with `/` is an object path and must
//! match `(/[A-Za-z0-9_]+)+`; any other is a bus destination and must match
//! `([A-Za-z_-][A-Za-z0-9_-]*\.)+[A-Za-z_-][A-Za-z0-9_-]*`.  Declaring the
//! same thing twice — a second destination, path, `session` or `system` —
//! is an error that names both occurrences.

use vstd::prelude::*;

use crate::token::{is_digit, is_letter};

verus! {

broadcast use vstd::std_specs::vec::group_vec_axioms, vstd::seq::group_seq_axioms;

// ---------------------------------------------------------------------------
// Destination and path shapes
// ---------------------------------------------------------------------------
/// May start a destination segment: a letter, `_` or `-` (not a digit).
pub open spec fn is_dest_start_char(c: u8) -> bool {
    is_letter(c) || c == ('_' as u8) || c == ('-' as u8)
}

/// May continue a destination segment.
pub open spec fn is_dest_char(c: u8) -> bool {
    is_dest_start_char(c) || is_digit(c)
}

/// May appear in a path segment: a letter, a digit or `_`.
pub open spec fn is_path_char(c: u8) -> bool {
    is_letter(c) || is_digit(c) || c == ('_' as u8)
}

/// Position `i` of `s` is sound for a destination: a dot must be followed
/// by a segment-start character (so segments are nonempty, never start
/// with a digit, and the string cannot end in a dot), anything else must
/// be a segment character.
pub open spec fn dest_pos_ok(s: Seq<u8>, i: int) -> bool {
    if s[i] == ('.' as u8) {
        i + 1 < s.len() && is_dest_start_char(s[i + 1])
    } else {
        is_dest_char(s[i])
    }
}

/// `s` matches `([A-Za-z_-][A-Za-z0-9_-]*\.)+[A-Za-z_-][A-Za-z0-9_-]*`:
/// two or more nonempty dot-separated segments, each starting with a
/// letter, `_` or `-`.
pub open spec fn valid_destination(s: Seq<u8>) -> bool {
    &&& s.len() > 0
    &&& is_dest_start_char(s[0])
    &&& (exists|i: int| 0 <= i < s.len() && s[i] == ('.' as u8))
    &&& (forall|i: int| 0 <= i < s.len() ==> #[trigger] dest_pos_ok(s, i))
}

/// Position `i` of `s` is sound for a path: a slash must be followed by a
/// segment character (so segments are nonempty and the string cannot end
/// in a slash), anything else must be a segment character.
pub open spec fn path_pos_ok(s: Seq<u8>, i: int) -> bool {
    if s[i] == ('/' as u8) {
        i + 1 < s.len() && is_path_char(s[i + 1])
    } else {
        is_path_char(s[i])
    }
}

/// `s` matches `(/[A-Za-z0-9_]+)+`: it starts with `/` and consists of
/// nonempty `/`-separated segments of letters, digits and `_`.
pub open spec fn valid_path(s: Seq<u8>) -> bool {
    &&& s.len() > 0
    &&& s[0] == ('/' as u8)
    &&& (forall|i: int| 0 <= i < s.len() ==> #[trigger] path_pos_ok(s, i))
}

// ---------------------------------------------------------------------------
// Raw properties and validation outcome
// ---------------------------------------------------------------------------
/// One raw entry of an object's parenthesized property list.
#[derive(PartialEq, Eq, Debug)]
pub enum RawPropKind {
    Str(Vec<u8>),
    Session,
    System,
}

/// A raw entry with the byte offset where it starts (diagnostics only).
#[derive(PartialEq, Eq, Debug)]
pub struct RawProp {
    pub kind: RawPropKind,
    pub pos: usize,
}

/// Image of [`RawProp`]; the offset drops out.
pub enum RawPropV {
    Str(Seq<u8>),
    Session,
    System,
}

impl DeepView for RawProp {
    type V = RawPropV;

    open spec fn deep_view(&self) -> RawPropV {
        match &self.kind {
            RawPropKind::Str(s) => RawPropV::Str(s@),
            RawPropKind::Session => RawPropV::Session,
            RawPropKind::System => RawPropV::System,
        }
    }
}

/// What a string literal in the property list turned out to be.
#[derive(Clone, Copy, PartialEq, Eq, Structural, Debug)]
pub enum StrClass {
    Destination,
    PathString,
}

/// Why validation rejected a property list.
#[derive(Clone, Copy, PartialEq, Eq, Structural, Debug)]
pub enum ValidateErrKind {
    DuplicateDestination,
    DuplicatePath,
    DuplicateSession,
    DuplicateSystem,
    BadDestination,
    BadPath,
}

/// A rejected property list: the offending entry and, for a duplicate,
/// the entry it collides with.
#[derive(PartialEq, Eq, Debug)]
pub struct ValidateError {
    pub kind: ValidateErrKind,
    pub pos: usize,
    pub prev_pos: Option<usize>,
}

/// The validated property set of an object declaration.
#[derive(PartialEq, Eq, Debug)]
pub struct ObjectProps {
    pub dest: Option<Vec<u8>>,
    pub path: Option<Vec<u8>>,
    pub session: bool,
    pub system: bool,
}

/// Image of [`ObjectProps`].
pub struct ObjectPropsV {
    pub dest: Option<Seq<u8>>,
    pub path: Option<Seq<u8>>,
    pub session: bool,
    pub system: bool,
}

impl DeepView for ObjectProps {
    type V = ObjectPropsV;

    open spec fn deep_view(&self) -> ObjectPropsV {
        ObjectPropsV {
            dest: self.dest.deep_view(),
            path: self.path.deep_view(),
            session: self.session,
            system: self.system,
        }
    }
}

/// The empty property set.
pub open spec fn sp_no_props() -> ObjectPropsV {
    ObjectPropsV { dest: None, path: None, session: false, system: false }
}

// ---------------------------------------------------------------------------
// Classification
// ---------------------------------------------------------------------------
/// Classify a string literal by shape: `/`-initial strings are paths,
/// all others destinations; each must then match its shape.
pub open spec fn sp_classify(s: Seq<u8>) -> Result<StrClass, ValidateErrKind> {
    if s.len() > 0 && s[0] == ('/' as u8) {
        if valid_path(s) {
            Ok(StrClass::PathString)
        } else {
            Err(ValidateErrKind::BadPath)
        }
    } else {
        if valid_destination(s) {
            Ok(StrClass::Destination)
        } else {
            Err(ValidateErrKind::BadDestination)
        }
    }
}

fn is_dest_start_char_x(c: u8) -> (r: bool)
    ensures
        r == is_dest_start_char(c),
{
    (('a' as u8) <= c && c <= ('z' as u8)) || (('A' as u8) <= c && c <= ('Z' as u8)) || c == ('_'
        as u8) || c == ('-' as u8)
}

fn is_dest_char_x(c: u8) -> (r: bool)
    ensures
        r == is_dest_char(c),
{
    is_dest_start_char_x(c) || (('0' as u8) <= c && c <= ('9' as u8))
}

fn is_path_char_x(c: u8) -> (r: bool)
    ensures
        r == is_path_char(c),
{
    (('a' as u8) <= c && c <= ('z' as u8)) || (('A' as u8) <= c && c <= ('Z' as u8)) || (('0'
        as u8) <= c && c <= ('9' as u8)) || c == ('_' as u8)
}

/// Does `s` match the destination shape?
pub fn check_destination(s: &Vec<u8>) -> (r: bool)
    ensures
        r == valid_destination(s@),
{
    if s.len() == 0 || !is_dest_start_char_x(s[0]) {
        return false;
    }
    let mut i: usize = 0;
    let mut seen_dot = false;
    while i < s.len()
        invariant
            0 < s@.len(),
            i <= s@.len(),
            forall|k: int| 0 <= k < i ==> #[trigger] dest_pos_ok(s@, k),
            seen_dot == exists|k: int| 0 <= k < i && s@[k] == ('.' as u8),
        decreases s@.len() - i,
    {
        if s[i] == ('.' as u8) {
            if i + 1 < s.len() && is_dest_start_char_x(s[i + 1]) {
                seen_dot = true;
            } else {
                assert(!dest_pos_ok(s@, i as int));
                return false;
            }
        } else {
            if !is_dest_char_x(s[i]) {
                assert(!dest_pos_ok(s@, i as int));
                return false;
            }
        }
        i = i + 1;
    }
    seen_dot
}

/// Does `s` match the path shape?
pub fn check_path(s: &Vec<u8>) -> (r: bool)
    ensures
        r == valid_path(s@),
{
    if s.len() == 0 || s[0] != ('/' as u8) {
        return false;
    }
    let mut i: usize = 0;
    while i < s.len()
        invariant
            0 < s@.len(),
            i <= s@.len(),
            forall|k: int| 0 <= k < i ==> #[trigger] path_pos_ok(s@, k),
        decreases s@.len() - i,
    {
        if s[i] == ('/' as u8) {
            if !(i + 1 < s.len() && is_path_char_x(s[i + 1])) {
                assert(!path_pos_ok(s@, i as int));
                return false;
            }
        } else {
            if !is_path_char_x(s[i]) {
                assert(!path_pos_ok(s@, i as int));
                return false;
            }
        }
        i = i + 1;
    }
    true
}

/// Classify one string literal of a property list.  `pos` anchors the
/// error to the literal's place in the source text.
pub fn classify_string(s: &Vec<u8>, pos: usize) -> (r: Result<StrClass, ValidateError>)
    ensures
        match r {
            Ok(c) => sp_classify(s@) == Ok::<StrClass, ValidateErrKind>(c),
            Err(e) => sp_classify(s@) == Err::<StrClass, ValidateErrKind>(e.kind) && e.pos == pos,
        },
{
    if s.len() > 0 && s[0] == ('/' as u8) {
        if check_path(s) {
            Ok(StrClass::PathString)
        } else {
            Err(ValidateError { kind: ValidateErrKind::BadPath, pos, prev_pos: None })
        }
    } else {
        if check_destination(s) {
            Ok(StrClass::Destination)
        } else {
            Err(ValidateError { kind: ValidateErrKind::BadDestination, pos, prev_pos: None })
        }
    }
}

// ---------------------------------------------------------------------------
// Folding the raw list
// ---------------------------------------------------------------------------
/// Fold the raw entries from position `i` into `acc`, left to right,
/// rejecting ill-shaped strings and duplicate markers.
pub open spec fn sp_validate_from(props: Seq<RawPropV>, i: int, acc: ObjectPropsV) -> Result<
    ObjectPropsV,
    ValidateErrKind,
>
    decreases props.len() - i,
{
    if !(0 <= i && i < props.len()) {
        Ok(acc)
    } else {
        match props[i] {
            RawPropV::Session => {
                if acc.session {
                    Err(ValidateErrKind::DuplicateSession)
                } else {
                    sp_validate_from(
                        props,
                        i + 1,
                        ObjectPropsV {
                            dest: acc.dest,
                            path: acc.path,
                            session: true,
                            system: acc.system,
                        },
                    )
                }
            },
            RawPropV::System => {
                if acc.system {
                    Err(ValidateErrKind::DuplicateSystem)
                } else {
                    sp_validate_from(
                        props,
                        i + 1,
                        ObjectPropsV {
                            dest: acc.dest,
                            path: acc.path,
                            session: acc.session,
                            system: true,
                        },
                    )
                }
            },
            RawPropV::Str(s) => match sp_classify(s) {
                Err(k) => Err(k),
                Ok(StrClass::Destination) => {
                    if acc.dest is Some {
                        Err(ValidateErrKind::DuplicateDestination)
                    } else {
                        sp_validate_from(
                            props,
                            i + 1,
                            ObjectPropsV {
                                dest: Some(s),
                                path: acc.path,
                                session: acc.session,
                                system: acc.system,
                            },
                        )
                    }
                },
                Ok(StrClass::PathString) => {
                    if acc.path is Some {
                        Err(ValidateErrKind::DuplicatePath)
                    } else {
                        sp_validate_from(
                            props,
                            i + 1,
                            ObjectPropsV {
                                dest: acc.dest,
                                path: Some(s),
                                session: acc.session,
                                system: acc.system,
                            },
                        )
                    }
                },
            },
        }
    }
}

/// Validate a whole raw property list.
pub open spec fn sp_validate(props: Seq<RawPropV>) -> Result<ObjectPropsV, ValidateErrKind> {
    sp_validate_from(props, 0, sp_no_props())
}

/// Well-formed validated declarations: the shapes the parser can
/// produce, with the declared strings in their validated shapes.
pub open spec fn wf_object(o: crate::ast::ObjectV) -> bool {
    &&& (o.dest matches Some(d) ==> valid_destination(d))
    &&& (o.path matches Some(p) ==> valid_path(p))
    &&& forall|k: int|
        0 <= k < o.interfaces.len() ==> crate::ast::wf_interface_impl(#[trigger] o.interfaces[k])
}

// ---------------------------------------------------------------------------
// Laws
// ---------------------------------------------------------------------------
/// Classification is total and shape-directed: a string of destination
/// shape always classifies as a destination, one of path shape always as
/// a path, and one of neither shape is always rejected.
pub proof fn lemma_classification_total(s: Seq<u8>)
    ensures
        valid_destination(s) ==> sp_classify(s) == Ok::<StrClass, ValidateErrKind>(
            StrClass::Destination,
        ),
        valid_path(s) ==> sp_classify(s) == Ok::<StrClass, ValidateErrKind>(StrClass::PathString),
        !valid_destination(s) && !valid_path(s) ==> sp_classify(s) is Err,
{
    if valid_destination(s) {
        assert(is_dest_start_char(s[0]));
        assert(s[0] != ('/' as u8));
    }
}

/// Which of the four property-list slots an entry claims, if any.
pub enum MarkerSlot {
    SlotDestination,
    SlotPath,
    SlotSession,
    SlotSystem,
}

/// Does entry `p` claim slot `sl`?
pub open spec fn sets_slot(p: RawPropV, sl: MarkerSlot) -> bool {
    match sl {
        MarkerSlot::SlotSession => p is Session,
        MarkerSlot::SlotSystem => p is System,
        MarkerSlot::SlotDestination => p matches RawPropV::Str(s) && sp_classify(s) == Ok::<
            StrClass,
            ValidateErrKind,
        >(StrClass::Destination),
        MarkerSlot::SlotPath => p matches RawPropV::Str(s) && sp_classify(s) == Ok::<
            StrClass,
            ValidateErrKind,
        >(StrClass::PathString),
    }
}

/// Is slot `sl` already taken in `acc`?
pub open spec fn slot_full(acc: ObjectPropsV, sl: MarkerSlot) -> bool {
    match sl {
        MarkerSlot::SlotSession => acc.session,
        MarkerSlot::SlotSystem => acc.system,
        MarkerSlot::SlotDestination => acc.dest is Some,
        MarkerSlot::SlotPath => acc.path is Some,
    }
}

/// Once a slot is taken, a later entry claiming it makes the fold fail.
proof fn lemma_full_slot_fails(props: Seq<RawPropV>, n: int, acc: ObjectPropsV, j: int, sl: MarkerSlot)
    requires
        0 <= n <= j < props.len(),
        slot_full(acc, sl),
        sets_slot(props[j], sl),
    ensures
        sp_validate_from(props, n, acc) is Err,
    decreases j - n,
{
    if n == j {
        // the entry at `n` claims a slot `acc` already holds
    } else {
        match props[n] {
            RawPropV::Session => {
                if !acc.session {
                    lemma_full_slot_fails(
                        props,
                        n + 1,
                        ObjectPropsV {
                            dest: acc.dest,
                            path: acc.path,
                            session: true,
                            system: acc.system,
                        },
                        j,
                        sl,
                    );
                }
            },
            RawPropV::System => {
                if !acc.system {
                    lemma_full_slot_fails(
                        props,
                        n + 1,
                        ObjectPropsV {
                            dest: acc.dest,
                            path: acc.path,
                            session: acc.session,
                            system: true,
                        },
                        j,
                        sl,
                    );
                }
            },
            RawPropV::Str(s) => {
                match sp_classify(s) {
                    Err(_) => {},
                    Ok(StrClass::Destination) => {
                        if acc.dest is None {
                            lemma_full_slot_fails(
                                props,
                                n + 1,
                                ObjectPropsV {
                                    dest: Some(s),
                                    path: acc.path,
                                    session: acc.session,
                                    system: acc.system,
                                },
                                j,
                                sl,
                            );
                        }
                    },
                    Ok(StrClass::PathString) => {
                        if acc.path is None {
                            lemma_full_slot_fails(
                                props,
                                n + 1,
                                ObjectPropsV {
                                    dest: acc.dest,
                                    path: Some(s),
                                    session: acc.session,
                                    system: acc.system,
                                },
                                j,
                                sl,
                            );
                        }
                    },
                }
            },
        }
    }
}

/// Two entries claiming the same slot make the fold fail, wherever the
/// fold starts before them.
proof fn lemma_two_claims_fail(
    props: Seq<RawPropV>,
    m: int,
    acc: ObjectPropsV,
    i: int,
    j: int,
    sl: MarkerSlot,
)
    requires
        0 <= m <= i < j < props.len(),
        sets_slot(props[i], sl),
        sets_slot(props[j], sl),
    ensures
        sp_validate_from(props, m, acc) is Err,
    decreases i - m,
{
    if m == i {
        if slot_full(acc, sl) {
            lemma_full_slot_fails(props, m, acc, i, sl);
        } else {
            match props[m] {
                RawPropV::Session => {
                    lemma_full_slot_fails(
                        props,
                        m + 1,
                        ObjectPropsV {
                            dest: acc.dest,
                            path: acc.path,
                            session: true,
                            system: acc.system,
                        },
                        j,
                        sl,
                    );
                },
                RawPropV::System => {
                    lemma_full_slot_fails(
                        props,
                        m + 1,
                        ObjectPropsV {
                            dest: acc.dest,
                            path: acc.path,
                            session: acc.session,
                            system: true,
                        },
                        j,
                        sl,
                    );
                },
                RawPropV::Str(s) => {
                    match sp_classify(s) {
                        Err(_) => {},
                        Ok(StrClass::Destination) => {
                            lemma_full_slot_fails(
                                props,
                                m + 1,
                                ObjectPropsV {
                                    dest: Some(s),
                                    path: acc.path,
                                    session: acc.session,
                                    system: acc.system,
                                },
                                j,
                                sl,
                            );
                        },
                        Ok(StrClass::PathString) => {
                            lemma_full_slot_fails(
                                props,
                                m + 1,
                                ObjectPropsV {
                                    dest: acc.dest,
                                    path: Some(s),
                                    session: acc.session,
                                    system: acc.system,
                                },
                                j,
                                sl,
                            );
                        },
                    }
                },
            }
        }
    } else {
        match props[m] {
            RawPropV::Session => {
                if !acc.session {
                    lemma_two_claims_fail(
                        props,
                        m + 1,
                        ObjectPropsV {
                            dest: acc.dest,
                            path: acc.path,
                            session: true,
                            system: acc.system,
                        },
                        i,
                        j,
                        sl,
                    );
                }
            },
            RawPropV::System => {
                if !acc.system {
                    lemma_two_claims_fail(
                        props,
                        m + 1,
                        ObjectPropsV {
                            dest: acc.dest,
                            path: acc.path,
                            session: acc.session,
                            system: true,
                        },
                        i,
                        j,
                        sl,
                    );
                }
            },
            RawPropV::Str(s) => {
                match sp_classify(s) {
                    Err(_) => {},
                    Ok(StrClass::Destination) => {
                        if acc.dest is None {
                            lemma_two_claims_fail(
                                props,
                                m + 1,
                                ObjectPropsV {
                                    dest: Some(s),
                                    path: acc.path,
                                    session: acc.session,
                                    system: acc.system,
                                },
                                i,
                                j,
                                sl,
                            );
                        }
                    },
                    Ok(StrClass::PathString) => {
                        if acc.path is None {
                            lemma_two_claims_fail(
                                props,
                                m + 1,
                                ObjectPropsV {
                                    dest: acc.dest,
                                    path: Some(s),
                                    session: acc.session,
                                    system: acc.system,
                                },
                                i,
                                j,
                                sl,
                            );
                        }
                    },
                }
            },
        }
    }
}

/// Declaring the same marker twice — `session`, `system`, a second
/// destination literal or a second path literal — always fails
/// validation, wherever the two occurrences stand in the list.
pub proof fn lemma_duplicate_marker_fails(props: Seq<RawPropV>, i: int, j: int, sl: MarkerSlot)
    requires
        0 <= i < j < props.len(),
        sets_slot(props[i], sl),
        sets_slot(props[j], sl),
    ensures
        sp_validate(props) is Err,
{
    lemma_two_claims_fail(props, 0, sp_no_props(), i, j, sl);
}

/// Validate the raw property list of one object declaration.
///
/// Returns the validated property set, or the first error in source
/// order; a duplicate error carries the positions of both occurrences.
pub fn validate_props(props: &Vec<RawProp>) -> (r: Result<ObjectProps, ValidateError>)
    ensures
        match r {
            Ok(p) => sp_validate(props.deep_view()) == Ok::<ObjectPropsV, ValidateErrKind>(
                p.deep_view(),
            ),
            Err(e) => sp_validate(props.deep_view()) == Err::<ObjectPropsV, ValidateErrKind>(
                e.kind,
            ),
        },
{
    let ghost pv = props.deep_view();
    let mut dest: Option<Vec<u8>> = None;
    let mut path: Option<Vec<u8>> = None;
    let mut session = false;
    let mut system = false;
    let mut dest_pos: usize = 0;
    let mut path_pos: usize = 0;
    let mut session_pos: usize = 0;
    let mut system_pos: usize = 0;
    let mut i: usize = 0;
    while i < props.len()
        invariant
            pv == props.deep_view(),
            pv.len() == props@.len(),
            i <= props@.len(),
            sp_validate(pv) == sp_validate_from(
                pv,
                i as int,
                ObjectPropsV {
                    dest: dest.deep_view(),
                    path: path.deep_view(),
                    session: session,
                    system: system,
                },
            ),
        decreases props@.len() - i,
    {
        proof {
            assert(pv[i as int] == props@[i as int].deep_view());
        }
        match &props[i].kind {
            RawPropKind::Session => {
                if session {
                    return Err(
                        ValidateError {
                            kind: ValidateErrKind::DuplicateSession,
                            pos: props[i].pos,
                            prev_pos: Some(session_pos),
                        },
                    );
                }
                session = true;
                session_pos = props[i].pos;
            },
            RawPropKind::System => {
                if system {
                    return Err(
                        ValidateError {
                            kind: ValidateErrKind::DuplicateSystem,
                            pos: props[i].pos,
                            prev_pos: Some(system_pos),
                        },
                    );
                }
                system = true;
                system_pos = props[i].pos;
            },
            RawPropKind::Str(s) => {
                let class = classify_string(s, props[i].pos);
                match class {
                    Err(e) => {
                        return Err(e);
                    },
                    Ok(StrClass::Destination) => {
                        if dest.is_some() {
                            return Err(
                                ValidateError {
                                    kind: ValidateErrKind::DuplicateDestination,
                                    pos: props[i].pos,
                                    prev_pos: Some(dest_pos),
                                },
                            );
                        }
                        dest = Some(s.clone());
                        dest_pos = props[i].pos;
                        proof {
                            assert(dest.deep_view() == Some(s@));
                        }
                    },
                    Ok(StrClass::PathString) => {
                        if path.is_some() {
                            return Err(
                                ValidateError {
                                    kind: ValidateErrKind::DuplicatePath,
                                    pos: props[i].pos,
                                    prev_pos: Some(path_pos),
                                },
                            );
                        }
                        path = Some(s.clone());
                        path_pos = props[i].pos;
                        proof {
                            assert(path.deep_view() == Some(s@));
                        }
                    },
                }
            },
        }
        i = i + 1;
    }
    Ok(ObjectProps { dest, path, session, system })
}

} // verus!
