//! Argument schema bridge: the host-native view of the options a module
//! exposes, the foreign layout those options cross the boundary in, and the
//! conversions between the two. A foreign record is modelled as the values
//! the host would read through it: a short-flag byte (zero meaning "none")
//! and null-terminated byte strings in place of pointers.

use vstd::prelude::*;

verus! {

use crate::cstr::{cstr_of, cstr_chars, cstr_decodable, text_encodable, encode_cstr, decode_cstr,
    lemma_cstr_round_trip};

/// One CLI option a module wants to expose, in host-native form.
pub struct Argument {
    /// Short flag; `'\0'` means the option has none.
    pub short: char,
    pub long: String,
    pub description: String,
    pub required: bool,
    pub is_flag: bool,
}

/// A resolved value for one option, in host-native form.
#[derive(Clone)]
pub struct ArgumentResult {
    pub long: String,
    pub value: String,
}

/// Foreign argument descriptor: short-flag byte, two C strings, two flags.
pub struct CArgument {
    pub short: u8,
    pub long: Vec<u8>,
    pub description: Vec<u8>,
    pub required: bool,
    pub is_flag: bool,
}

/// Foreign list of argument descriptors. The vector stands for the
/// length-and-pointer pair of the boundary layout.
pub struct CArgumentList {
    pub arguments: Vec<CArgument>,
}

/// Foreign resolved value: two C strings.
pub struct CArgumentResult {
    pub long: Vec<u8>,
    pub value: Vec<u8>,
}

/// Foreign list of resolved values.
pub struct CArgumentResultList {
    pub results: Vec<CArgumentResult>,
}

/// Mathematical image of an `Argument`.
pub ghost struct ArgumentV {
    pub short: char,
    pub long: Seq<char>,
    pub description: Seq<char>,
    pub required: bool,
    pub is_flag: bool,
}

/// Mathematical image of a `CArgument`.
pub ghost struct CArgumentV {
    pub short: u8,
    pub long: Seq<u8>,
    pub description: Seq<u8>,
    pub required: bool,
    pub is_flag: bool,
}

/// Mathematical image of an `ArgumentResult`.
pub ghost struct ArgumentResultV {
    pub long: Seq<char>,
    pub value: Seq<char>,
}

/// Mathematical image of a `CArgumentResult`.
pub ghost struct CArgumentResultV {
    pub long: Seq<u8>,
    pub value: Seq<u8>,
}

impl View for Argument {
    type V = ArgumentV;

    open spec fn view(&self) -> ArgumentV {
        ArgumentV {
            short: self.short,
            long: self.long@,
            description: self.description@,
            required: self.required,
            is_flag: self.is_flag,
        }
    }
}

impl View for CArgument {
    type V = CArgumentV;

    open spec fn view(&self) -> CArgumentV {
        CArgumentV {
            short: self.short,
            long: self.long@,
            description: self.description@,
            required: self.required,
            is_flag: self.is_flag,
        }
    }
}

impl View for CArgumentList {
    type V = Seq<CArgumentV>;

    open spec fn view(&self) -> Seq<CArgumentV> {
        self.arguments@.map_values(|c: CArgument| c@)
    }
}

impl View for ArgumentResult {
    type V = ArgumentResultV;

    open spec fn view(&self) -> ArgumentResultV {
        ArgumentResultV { long: self.long@, value: self.value@ }
    }
}

impl View for CArgumentResult {
    type V = CArgumentResultV;

    open spec fn view(&self) -> CArgumentResultV {
        CArgumentResultV { long: self.long@, value: self.value@ }
    }
}

impl View for CArgumentResultList {
    type V = Seq<CArgumentResultV>;

    open spec fn view(&self) -> Seq<CArgumentResultV> {
        self.results@.map_values(|c: CArgumentResult| c@)
    }
}

/// An argument the foreign layout can carry: the short flag fits in one byte
/// and neither text encodes a zero byte.
pub open spec fn argument_encodable(a: ArgumentV) -> bool {
    a.short as u32 <= 255 && text_encodable(a.long) && text_encodable(a.description)
}

/// The foreign image of a host argument.
pub open spec fn foreign_argument_of(a: ArgumentV) -> CArgumentV {
    CArgumentV {
        short: a.short as u8,
        long: cstr_of(a.long),
        description: cstr_of(a.description),
        required: a.required,
        is_flag: a.is_flag,
    }
}

/// The host reading of a foreign argument, when both strings decode.
pub open spec fn host_argument_of(c: CArgumentV) -> Option<ArgumentV> {
    if cstr_decodable(c.long) && cstr_decodable(c.description) {
        Some(ArgumentV {
            short: c.short as char,
            long: cstr_chars(c.long),
            description: cstr_chars(c.description),
            required: c.required,
            is_flag: c.is_flag,
        })
    } else {
        None
    }
}

/// A resolved value the foreign layout can carry.
pub open spec fn result_encodable(r: ArgumentResultV) -> bool {
    text_encodable(r.long) && text_encodable(r.value)
}

/// The foreign image of a host resolved value.
pub open spec fn foreign_result_of(r: ArgumentResultV) -> CArgumentResultV {
    CArgumentResultV { long: cstr_of(r.long), value: cstr_of(r.value) }
}

/// The host reading of a foreign resolved value, when both strings decode.
pub open spec fn host_result_of(c: CArgumentResultV) -> Option<ArgumentResultV> {
    if cstr_decodable(c.long) && cstr_decodable(c.value) {
        Some(ArgumentResultV { long: cstr_chars(c.long), value: cstr_chars(c.value) })
    } else {
        None
    }
}

/// Round-trip law: a host argument carried to the foreign layout and read
/// back comes out unchanged, field for field.
pub proof fn lemma_argument_round_trip(a: ArgumentV)
    requires
        argument_encodable(a),
    ensures
        host_argument_of(foreign_argument_of(a)) == Some(a),
{
    lemma_cstr_round_trip(a.long);
    lemma_cstr_round_trip(a.description);
}

/// Round-trip law: a host resolved value carried to the foreign layout and
/// read back comes out unchanged, field for field.
pub proof fn lemma_result_round_trip(r: ArgumentResultV)
    requires
        result_encodable(r),
    ensures
        host_result_of(foreign_result_of(r)) == Some(r),
{
    lemma_cstr_round_trip(r.long);
    lemma_cstr_round_trip(r.value);
}

/// Round-trip law over a whole schema: every encodable argument of a list
/// survives the trip to the foreign layout and back unchanged.
pub proof fn lemma_argument_list_round_trip(args: Seq<ArgumentV>)
    requires
        forall|i: int| 0 <= i < args.len() ==> argument_encodable(#[trigger] args[i]),
    ensures
        forall|i: int|
            0 <= i < args.len() ==> host_argument_of(foreign_argument_of(#[trigger] args[i]))
                == Some(args[i]),
{
    assert forall|i: int| 0 <= i < args.len() implies host_argument_of(
        foreign_argument_of(#[trigger] args[i]),
    ) == Some(args[i]) by {
        lemma_argument_round_trip(args[i]);
    }
}

/// Round-trip law over a whole result list: every encodable resolved value
/// of a list survives the trip to the foreign layout and back unchanged.
pub proof fn lemma_result_list_round_trip(results: Seq<ArgumentResultV>)
    requires
        forall|i: int| 0 <= i < results.len() ==> result_encodable(#[trigger] results[i]),
    ensures
        forall|i: int|
            0 <= i < results.len() ==> host_result_of(foreign_result_of(#[trigger] results[i]))
                == Some(results[i]),
{
    assert forall|i: int| 0 <= i < results.len() implies host_result_of(
        foreign_result_of(#[trigger] results[i]),
    ) == Some(results[i]) by {
        lemma_result_round_trip(results[i]);
    }
}

impl Argument {
    /// Read one foreign descriptor. Fails exactly when one of its strings is
    /// not a decodable C string — a malformed module.
    pub fn from_foreign(c: &CArgument) -> (r: Option<Argument>)
        ensures
            r matches Some(a) ==> host_argument_of(c@) == Some(a@),
            r is None <==> host_argument_of(c@) is None,
    {
        let long = match decode_cstr(&c.long) {
            Some(s) => s,
            None => {
                return None;
            },
        };
        let description = match decode_cstr(&c.description) {
            Some(s) => s,
            None => {
                return None;
            },
        };
        Some(Argument {
            short: c.short as char,
            long,
            description,
            required: c.required,
            is_flag: c.is_flag,
        })
    }

    /// Write one host argument in the foreign layout. Fails exactly when the
    /// argument is not encodable.
    pub fn to_foreign(&self) -> (r: Option<CArgument>)
        ensures
            r matches Some(c) ==> argument_encodable(self@) && c@ == foreign_argument_of(self@),
            r is None <==> !argument_encodable(self@),
    {
        if self.short as u32 > 255 {
            return None;
        }
        let long = match encode_cstr(&self.long) {
            Some(v) => v,
            None => {
                return None;
            },
        };
        let description = match encode_cstr(&self.description) {
            Some(v) => v,
            None => {
                return None;
            },
        };
        Some(CArgument {
            short: (self.short as u32) as u8,
            long,
            description,
            required: self.required,
            is_flag: self.is_flag,
        })
    }
}

impl ArgumentResult {
    /// Read one foreign resolved value.
    pub fn from_foreign(c: &CArgumentResult) -> (r: Option<ArgumentResult>)
        ensures
            r matches Some(a) ==> host_result_of(c@) == Some(a@),
            r is None <==> host_result_of(c@) is None,
    {
        let long = match decode_cstr(&c.long) {
            Some(s) => s,
            None => {
                return None;
            },
        };
        let value = match decode_cstr(&c.value) {
            Some(s) => s,
            None => {
                return None;
            },
        };
        Some(ArgumentResult { long, value })
    }

    /// Write one host resolved value in the foreign layout.
    pub fn to_foreign(&self) -> (r: Option<CArgumentResult>)
        ensures
            r matches Some(c) ==> result_encodable(self@) && c@ == foreign_result_of(self@),
            r is None <==> !result_encodable(self@),
    {
        let long = match encode_cstr(&self.long) {
            Some(v) => v,
            None => {
                return None;
            },
        };
        let value = match encode_cstr(&self.value) {
            Some(v) => v,
            None => {
                return None;
            },
        };
        Some(CArgumentResult { long, value })
    }
}

/// Read a whole foreign descriptor list, element by element. Fails exactly
/// when some element fails.
pub fn arguments_from_foreign(list: &CArgumentList) -> (r: Option<Vec<Argument>>)
    ensures
        r matches Some(v) ==> {
            &&& v@.len() == list@.len()
            &&& forall|i: int|
                0 <= i < v@.len() ==> host_argument_of(list@[i]) == Some(#[trigger] v@[i]@)
        },
        r is None <==> exists|i: int| 0 <= i < list@.len() && host_argument_of(#[trigger] list@[i]) is None,
{
    let mut out: Vec<Argument> = Vec::new();
    let n = list.arguments.len();
    let mut k: usize = 0;
    while k < n
        invariant
            n == list@.len(),
            0 <= k <= n,
            out@.len() == k,
            forall|i: int| 0 <= i < k ==> host_argument_of(list@[i]) == Some(#[trigger] out@[i]@),
        decreases n - k,
    {
        match Argument::from_foreign(&list.arguments[k]) {
            Some(a) => {
                out.push(a);
            },
            None => {
                proof {
                    assert(host_argument_of(list@[k as int]) is None);
                }
                return None;
            },
        }
        k += 1;
    }
    proof {
        assert forall|i: int| 0 <= i < list@.len() implies !(host_argument_of(
            #[trigger] list@[i],
        ) is None) by {
            assert(host_argument_of(list@[i]) == Some(out@[i]@));
        }
    }
    Some(out)
}

/// Write a whole host result list in the foreign layout — the marshaling
/// step before a module call. Fails exactly when some element is not
/// encodable.
pub fn results_to_foreign(results: &Vec<ArgumentResult>) -> (r: Option<CArgumentResultList>)
    ensures
        r matches Some(l) ==> {
            &&& l@.len() == results@.len()
            &&& forall|i: int|
                0 <= i < l@.len() ==> result_encodable(#[trigger] results@[i]@) && l@[i]
                    == foreign_result_of(results@[i]@)
        },
        r is None <==> exists|i: int|
            0 <= i < results@.len() && !result_encodable(#[trigger] results@[i]@),
{
    let mut out: Vec<CArgumentResult> = Vec::new();
    let n = results.len();
    let mut k: usize = 0;
    while k < n
        invariant
            n == results@.len(),
            0 <= k <= n,
            out@.len() == k,
            forall|i: int|
                0 <= i < k ==> result_encodable(#[trigger] results@[i]@) && out@.map_values(
                    |c: CArgumentResult| c@,
                )[i] == foreign_result_of(results@[i]@),
        decreases n - k,
    {
        match results[k].to_foreign() {
            Some(c) => {
                out.push(c);
            },
            None => {
                return None;
            },
        }
        k += 1;
    }
    Some(CArgumentResultList { results: out })
}

/// Read a whole foreign result list back — what a test double sees.
pub fn results_from_foreign(list: &CArgumentResultList) -> (r: Option<Vec<ArgumentResult>>)
    ensures
        r matches Some(v) ==> {
            &&& v@.len() == list@.len()
            &&& forall|i: int|
                0 <= i < v@.len() ==> host_result_of(list@[i]) == Some(#[trigger] v@[i]@)
        },
        r is None <==> exists|i: int| 0 <= i < list@.len() && host_result_of(#[trigger] list@[i]) is None,
{
    let mut out: Vec<ArgumentResult> = Vec::new();
    let n = list.results.len();
    let mut k: usize = 0;
    while k < n
        invariant
            n == list@.len(),
            0 <= k <= n,
            out@.len() == k,
            forall|i: int| 0 <= i < k ==> host_result_of(list@[i]) == Some(#[trigger] out@[i]@),
        decreases n - k,
    {
        match ArgumentResult::from_foreign(&list.results[k]) {
            Some(a) => {
                out.push(a);
            },
            None => {
                proof {
                    assert(host_result_of(list@[k as int]) is None);
                }
                return None;
            },
        }
        k += 1;
    }
    proof {
        assert forall|i: int| 0 <= i < list@.len() implies !(host_result_of(
            #[trigger] list@[i],
        ) is None) by {
            assert(host_result_of(list@[i]) == Some(out@[i]@));
        }
    }
    Some(out)
}

/// What the command line reported for one declared argument: whether its
/// flag was set, and the value supplied for it, if any.
pub struct ResolvedValue {
    pub flag_set: bool,
    pub value: Option<String>,
}

/// Mathematical image of a `ResolvedValue`.
pub ghost struct ResolvedValueV {
    pub flag_set: bool,
    pub value: Option<Seq<char>>,
}

impl View for ResolvedValue {
    type V = ResolvedValueV;

    open spec fn view(&self) -> ResolvedValueV {
        ResolvedValueV {
            flag_set: self.flag_set,
            value: match self.value {
                Some(ref s) => Some(s@),
                None => None,
            },
        }
    }
}

/// The result list entry one argument contributes, if any: a set flag
/// contributes its long name with the `"true"` sentinel, a supplied value
/// contributes the value, and an absent option contributes nothing — never
/// an empty placeholder.
pub open spec fn included_result(a: ArgumentV, r: ResolvedValueV) -> Option<ArgumentResultV> {
    if a.is_flag {
        if r.flag_set {
            Some(ArgumentResultV { long: a.long, value: "true"@ })
        } else {
            None
        }
    } else {
        match r.value {
            Some(v) => Some(ArgumentResultV { long: a.long, value: v }),
            None => None,
        }
    }
}

/// The whole result list a module's arguments contribute, in declaration
/// order.
pub open spec fn collected_results(args: Seq<ArgumentV>, res: Seq<ResolvedValueV>) -> Seq<
    ArgumentResultV,
>
    decreases args.len(),
{
    if args.len() == 0 || res.len() == 0 {
        Seq::empty()
    } else {
        collected_results(args.drop_last(), res.drop_last()) + match included_result(
            args.last(),
            res.last(),
        ) {
            Some(r) => seq![r],
            None => Seq::empty(),
        }
    }
}

/// The mathematical image of a host result vector.
pub open spec fn results_view(v: Seq<ArgumentResult>) -> Seq<ArgumentResultV> {
    v.map_values(|a: ArgumentResult| a@)
}

/// Build a module's result list from what the command line reported for
/// each of its declared arguments, pairwise.
pub fn collect_results(args: &Vec<Argument>, resolved: Vec<ResolvedValue>) -> (r: Vec<
    ArgumentResult,
>)
    requires
        args@.len() == resolved@.len(),
    ensures
        results_view(r@) == collected_results(
            args_view(args@),
            resolved@.map_values(|x: ResolvedValue| x@),
        ),
{
    let ghost av = args_view(args@);
    let ghost rv = resolved@.map_values(|x: ResolvedValue| x@);
    let mut out: Vec<ArgumentResult> = Vec::new();
    let n = args.len();
    let mut rest = resolved;
    let ghost mut k: int = 0;
    let mut i: usize = 0;
    proof {
        assert(results_view(out@) =~= collected_results(av.take(0), rv.take(0)));
        assert(rest@.map_values(|x: ResolvedValue| x@) =~= rv.skip(0));
    }
    while i < n
        invariant
            av == args_view(args@),
            n == av.len(),
            rv.len() == av.len(),
            k == i,
            0 <= i <= n,
            rest@.len() == rv.len() - k,
            rest@.map_values(|x: ResolvedValue| x@) == rv.skip(k),
            results_view(out@) == collected_results(av.take(k), rv.take(k)),
        decreases n - i,
    {
        let ghost prev = rest@;
        let r = rest.remove(0);
        proof {
            assert(prev.map_values(|x: ResolvedValue| x@)[0] == prev[0]@);
            assert(rv.skip(k)[0] == rv[k]);
            assert(r@ == rv[k]);
            assert forall|j: int| 0 <= j < rest@.len() implies rest@.map_values(
                |x: ResolvedValue| x@,
            )[j] == #[trigger] rv.skip(k + 1)[j] by {
                assert(rest@[j] == prev[j + 1]);
                assert(prev.map_values(|x: ResolvedValue| x@)[j + 1] == prev[j + 1]@);
                assert(rv.skip(k)[j + 1] == rv[k + 1 + j]);
                assert(rv.skip(k + 1)[j] == rv[k + 1 + j]);
            }
            assert(rest@.map_values(|x: ResolvedValue| x@) =~= rv.skip(k + 1));
            assert(av.take(k + 1).drop_last() =~= av.take(k));
            assert(rv.take(k + 1).drop_last() =~= rv.take(k));
            assert(av.take(k + 1).last() == av[k]);
            assert(rv.take(k + 1).last() == rv[k]);
            assert(args@[k].view() == av[k]);
        }
        let a = &args[i];
        if a.is_flag {
            if r.flag_set {
                out.push(ArgumentResult { long: a.long.clone(), value: String::from_str("true") });
            }
        } else {
            match r.value {
                Some(v) => {
                    out.push(ArgumentResult { long: a.long.clone(), value: v });
                },
                None => {},
            }
        }
        proof {
            assert(results_view(out@) =~= collected_results(av.take(k + 1), rv.take(k + 1)));
            k = k + 1;
        }
        i += 1;
    }
    proof {
        assert(av.take(k) =~= av);
        assert(rv.take(k) =~= rv);
    }
    out
}

/// Two arguments collide when they share a long name, or share a short flag
/// that is not the "none" sentinel.
pub open spec fn pair_conflict(a: ArgumentV, b: ArgumentV) -> bool {
    a.long == b.long || (a.short == b.short && a.short != '\u{0}')
}

/// A combined schema is in conflict when some two of its entries collide.
pub open spec fn schema_conflict(args: Seq<ArgumentV>) -> bool {
    exists|i: int, j: int| 0 <= i < j < args.len() && pair_conflict(args[i], args[j])
}

/// The mathematical image of a host argument vector.
pub open spec fn args_view(v: Seq<Argument>) -> Seq<ArgumentV> {
    v.map_values(|a: Argument| a@)
}

/// Uniqueness law: a schema that holds two entries sharing a long name, or a
/// non-null short flag, is in conflict — construction must reject it before
/// any module call.
pub proof fn lemma_overlap_is_conflict(args: Seq<ArgumentV>, i: int, j: int)
    requires
        0 <= i < args.len(),
        0 <= j < args.len(),
        i != j,
        args[i].long == args[j].long || (args[i].short == args[j].short && args[i].short
            != '\u{0}'),
    ensures
        schema_conflict(args),
{
    if i < j {
        assert(pair_conflict(args[i], args[j]));
    } else {
        assert(pair_conflict(args[j], args[i]));
    }
}

/// Whether two concrete arguments collide.
fn args_collide(a: &Argument, b: &Argument) -> (r: bool)
    ensures
        r == pair_conflict(a@, b@),
{
    if a.long == b.long {
        true
    } else {
        a.short == b.short && a.short != '\u{0}'
    }
}

/// The entry at a position of the combined generator-then-render schema.
fn combined_at<'a>(generator_args: &'a Vec<Argument>, render_args: &'a Vec<Argument>, i: usize) -> (
    a: &'a Argument)
    requires
        i < generator_args@.len() + render_args@.len(),
    ensures
        a@ == (args_view(generator_args@) + args_view(render_args@))[i as int],
{
    if i < generator_args.len() {
        &generator_args[i]
    } else {
        &render_args[i - generator_args.len()]
    }
}

/// Fail-fast schema check run before any module call: true exactly when the
/// combined generator and render argument sets are free of conflicts.
pub fn schema_is_valid(generator_args: &Vec<Argument>, render_args: &Vec<Argument>) -> (ok: bool)
    requires
        generator_args@.len() + render_args@.len() <= usize::MAX,
    ensures
        ok <==> !schema_conflict(args_view(generator_args@) + args_view(render_args@)),
{
    let ghost all = args_view(generator_args@) + args_view(render_args@);
    let n = generator_args.len() + render_args.len();
    let mut i: usize = 0;
    while i < n
        invariant
            n == all.len(),
            all == args_view(generator_args@) + args_view(render_args@),
            0 <= i <= n,
            forall|p: int, q: int| 0 <= p < q < all.len() && p < i ==> !pair_conflict(all[p], all[q]),
        decreases n - i,
    {
        let mut j: usize = i + 1;
        while j < n
            invariant
                n == all.len(),
                all == args_view(generator_args@) + args_view(render_args@),
                0 <= i < j <= n,
                forall|p: int, q: int| 0 <= p < q < all.len() && p < i ==> !pair_conflict(
                    all[p],
                    all[q],
                ),
                forall|q: int| i < q < j ==> !pair_conflict(all[i as int], all[q]),
            decreases n - j,
        {
            if args_collide(combined_at(generator_args, render_args, i), combined_at(
                generator_args,
                render_args,
                j,
            )) {
                proof {
                    assert(pair_conflict(all[i as int], all[j as int]));
                }
                return false;
            }
            j += 1;
        }
        i += 1;
    }
    true
}

} // verus!
