//! What is promised of the texts that come from a cluster and go to a person:
//! quantities, releases, command lines, conflicts, errors.
use vstd::prelude::*;
use vstd::string::*;

use crate::base::decimal::decimal;
use crate::base::json::{parsed_json, part, JsonView};
use crate::base::laws::{
    a_cut_is_at_the_first_mark, a_mark_parts_a_text, the_last_piece_follows_the_last_separator,
};
use crate::base::text::{
    byte_length, cut, each, held, joined, occurs, parted, pieces, replaced, stands_at,
    stripped_start, text_lines, trimmed, white_space,
};
use crate::base::within::{occurs_in_itself, occurs_transitive, stretch_occurs};
use crate::k8s::error::{
    diagnosis_of, distinct, exec_failure, message_of, messages, quoted, AuthFailure, Cause, Error,
};
use crate::k8s::exec::{
    ended, in_quotes, size_note, split_run, split_step, stacked, start_failure, words, SplitState,
    Status,
};
use crate::k8s::helm::{
    base64_decoded, gunzipped, newest, opens_object, payload_json, peeled, release_of,
    secret_release, ReleaseView,
};
use crate::k8s::metrics::{
    as_double, exponent, memory_text, nearest_even, nearest_up, numeric_end, quantity_of,
    reading_of, readings_of, scale_of, usage_key, QuantityView, Scale,
};
use crate::k8s::ops::{
    conflict_of, fragment_read, fragments_of, fragments_read, line_read, lines_read, trailing_field,
    ConflictView,
};
use crate::k8s::resources::ObjectView;

verus! {

/// Whether a text shows a number of bytes in a unit, to the nearest tenth below a
/// hundred and to the nearest whole from there on.
pub open spec fn shows_in(text: Seq<char>, bytes: int, size: int, unit: Seq<char>) -> bool {
    if bytes < 100 * size {
        exists|tenths: nat|
            #![trigger decimal(tenths / 10)]
            text == decimal(tenths / 10) + "."@ + decimal(tenths % 10) + unit && -size <= 2 * (
            tenths * size - 10 * bytes) <= size
    } else {
        exists|whole: nat|
            #![trigger decimal(whole)]
            text == decimal(whole) + unit && -size <= 2 * (whole * size - bytes) <= size
    }
}

proof fn near_enough(n: nat, d: nat)
    requires
        d > 0,
    ensures
        -(d as int) <= 2 * (nearest_up(n, d) * d - n) <= d,
        -(d as int) <= 2 * (nearest_even(n, d) * d - n) <= d,
{
    let (q, rest) = (n / d, n % d);
    vstd::arithmetic::div_mod::lemma_fundamental_div_mod(n as int, d as int);
    vstd::arithmetic::div_mod::lemma_mod_bound(n as int, d as int);
    assert((q + 1) * d == q * d + d) by (nonlinear_arith);
    assert(q * d == d * q) by (nonlinear_arith);
    let whole = nearest_up(n, d);
    let all = (2 * n + d) as int;
    vstd::arithmetic::div_mod::lemma_fundamental_div_mod(all, (2 * d) as int);
    vstd::arithmetic::div_mod::lemma_mod_bound(all, (2 * d) as int);
    assert((2 * d) * (whole as int) == 2 * (whole * d)) by (nonlinear_arith);
}

/// Memory is shown in the greatest unit that it reaches, rounded to what a person
/// reads.
pub proof fn memory_is_shown_in_the_unit_it_reaches(bytes: int)
    requires
        bytes < 0x20_0000_0000_0000,
    ensures
        bytes <= 0 ==> memory_text(bytes) == "0"@,
        0 < bytes < 1024 ==> memory_text(bytes) == decimal(bytes as nat),
        1024 <= bytes < 1_048_576 ==> shows_in(memory_text(bytes), bytes, 1024, "Ki"@),
        1_048_576 <= bytes < 1_073_741_824 ==> shows_in(
            memory_text(bytes),
            bytes,
            1_048_576,
            "Mi"@,
        ),
        bytes >= 1_073_741_824 ==> shows_in(memory_text(bytes), bytes, 1_073_741_824, "Gi"@),
{
    if bytes > 0 {
        let n = bytes as nat;
        assert(as_double(n) == n) by {
            assert(n / 1 == n && n % 1 == 0);
            assert(n * 1 == n);
        }
        let (size, unit): (nat, Seq<char>) = if n >= 0x4000_0000 {
            (0x4000_0000, "Gi"@)
        } else if n >= 0x10_0000 {
            (0x10_0000, "Mi"@)
        } else {
            (0x400, "Ki"@)
        };
        if n >= 1024 {
            if n < 100 * size {
                let tenths = nearest_even(10 * n, size);
                assert(memory_text(bytes) == decimal(tenths / 10) + "."@ + decimal(tenths % 10)
                    + unit);
                near_enough(10 * n, size);
                assert(-size <= 2 * (tenths * size - 10 * bytes) <= size);
            } else {
                let whole = nearest_up(n, size);
                assert(memory_text(bytes) == decimal(whole) + unit);
                near_enough(n, size);
                assert(-size <= 2 * (whole * size - bytes) <= size);
            }
        }
    }
}

/// Whether a text is the number of a quantity: digits, a point and signs.
pub open spec fn is_number(text: Seq<char>) -> bool {
    text.len() > 0 && forall|i: int|
        0 <= i < text.len() ==> ('0' <= #[trigger] text[i] <= '9' || text[i] == '.' || text[i]
            == '-' || text[i] == '+')
}

proof fn number_ends(text: Seq<char>, k: int, end: int)
    requires
        0 <= k <= end <= text.len(),
        is_number(text.take(end)) || end == k,
        end < text.len() ==> !('0' <= text[end] <= '9' || text[end] == '.' || text[end] == '-'
            || text[end] == '+'),
    ensures
        numeric_end(text, k) == end,
    decreases end - k,
{
    if k < end {
        assert(text.take(end)[k] == text[k]);
        number_ends(text, k + 1, end);
    }
}

/// Whether a number with a suffix behind it is read as that number at that scale.
pub open spec fn scales(number: Seq<char>, suffix: Seq<char>, scale: Scale) -> bool {
    quantity_of(number + suffix) == Some(QuantityView::Scaled { number, scale })
}

proof fn suffix_read(number: Seq<char>, suffix: Seq<char>)
    requires
        is_number(number),
        suffix.len() <= 2,
        forall|i: int|
            0 <= i < suffix.len() ==> ('a' <= #[trigger] suffix[i] <= 'z' || 'A' <= suffix[i]
                <= 'Z'),
    ensures
        quantity_of(number + suffix) == (match scale_of(suffix) {
            Some(scale) => Some(QuantityView::Scaled { number, scale }),
            None => None,
        }),
{
    let whole = number + suffix;
    assert(whole.take(number.len() as int) =~= number);
    assert(whole.skip(number.len() as int) =~= suffix);
    number_ends(whole, 0, number.len() as int);
    assert(!white_space(whole[0])) by {
        assert(whole[0] == number[0]);
    }
    assert(!white_space(whole.last())) by {
        if suffix.len() > 0 {
            assert(whole.last() == suffix[suffix.len() - 1]);
        } else {
            assert(whole.last() == number[number.len() - 1]);
        }
    }
    assert(trimmed(whole) == whole);
    assert(!exponent(suffix));
}

/// A quantity is its number at the scale of its suffix: case decides between
/// milli and mega, and an `i` between thousands and their binary neighbours.
/// Another suffix makes it none.
pub proof fn a_quantity_is_its_number_at_its_scale(number: Seq<char>, suffix: Seq<char>)
    requires
        is_number(number),
    ensures
        scales(number, ""@, Scale::One),
        scales(number, "n"@, Scale::Nano),
        scales(number, "u"@, Scale::Micro),
        scales(number, "m"@, Scale::Milli),
        scales(number, "k"@, Scale::Kilo),
        scales(number, "M"@, Scale::Mega),
        scales(number, "G"@, Scale::Giga),
        scales(number, "T"@, Scale::Tera),
        scales(number, "P"@, Scale::Peta),
        scales(number, "E"@, Scale::Exa),
        scales(number, "Ki"@, Scale::Kibi),
        scales(number, "Mi"@, Scale::Mebi),
        scales(number, "Gi"@, Scale::Gibi),
        scales(number, "Ti"@, Scale::Tebi),
        scales(number, "Pi"@, Scale::Pebi),
        scales(number, "Ei"@, Scale::Exbi),
        suffix.len() == 1 && 'a' <= suffix[0] <= 'z' && suffix[0] != 'n' && suffix[0] != 'u'
            && suffix[0] != 'm' && suffix[0] != 'k' ==> quantity_of(number + suffix) is None,
{
    reveal_strlit("");
    reveal_strlit("n");
    reveal_strlit("u");
    reveal_strlit("m");
    reveal_strlit("k");
    reveal_strlit("M");
    reveal_strlit("G");
    reveal_strlit("T");
    reveal_strlit("P");
    reveal_strlit("E");
    reveal_strlit("Ki");
    reveal_strlit("Mi");
    reveal_strlit("Gi");
    reveal_strlit("Ti");
    reveal_strlit("Pi");
    reveal_strlit("Ei");
    assert(""@.len() == 0);
    assert("n"@[0] == 'n' && "u"@[0] == 'u' && "m"@[0] == 'm' && "k"@[0] == 'k' && "M"@[0] == 'M'
        && "G"@[0] == 'G' && "T"@[0] == 'T' && "P"@[0] == 'P' && "E"@[0] == 'E');
    assert("Ki"@[0] == 'K' && "Mi"@[0] == 'M' && "Gi"@[0] == 'G' && "Ti"@[0] == 'T' && "Pi"@[0]
        == 'P' && "Ei"@[0] == 'E');
    suffix_read(number, ""@);
    suffix_read(number, "n"@);
    suffix_read(number, "u"@);
    suffix_read(number, "m"@);
    suffix_read(number, "k"@);
    suffix_read(number, "M"@);
    suffix_read(number, "G"@);
    suffix_read(number, "T"@);
    suffix_read(number, "P"@);
    suffix_read(number, "E"@);
    suffix_read(number, "Ki"@);
    suffix_read(number, "Mi"@);
    suffix_read(number, "Gi"@);
    suffix_read(number, "Ti"@);
    suffix_read(number, "Pi"@);
    suffix_read(number, "Ei"@);
    if suffix.len() == 1 && 'a' <= suffix[0] <= 'z' {
        suffix_read(number, suffix);
    }
}

/// What a container uses is read from its own usage, each of the containers once
/// and in their order. A pod's usage is kept under its namespace and its name.
pub proof fn every_container_is_read(
    data: JsonView,
    list: Seq<JsonView>,
    k: int,
    namespace: Seq<char>,
    name: Seq<char>,
)
    requires
        data.get("containers"@) == Some(JsonView::Array(list)),
        0 <= k < list.len(),
    ensures
        readings_of(data).len() == list.len(),
        part(list[k].get("usage"@), "cpu"@) matches Some(JsonView::Str(text)) ==> readings_of(
            data,
        )[k].cpu == quantity_of(text),
        part(list[k].get("usage"@), "memory"@) matches Some(JsonView::Str(text)) ==> readings_of(
            data,
        )[k].memory == quantity_of(text),
        list[k].get("usage"@) is None ==> readings_of(data)[k] == reading_of(None) && readings_of(
            data,
        )[k].cpu is None && readings_of(data)[k].memory is None,
        usage_key(Some(namespace), name) == namespace + "/"@ + name,
        usage_key(None, name) == name,
{
}

/// The text of a field that is one and is not empty.
pub open spec fn text_at(j: Option<JsonView>, text: Seq<char>) -> bool {
    j == Some(JsonView::Str(text)) && text.len() > 0
}

/// A release shows what its payload says: the chart with its version, the status,
/// the revision, the version of what it installs. It is none without a name and
/// without a chart.
pub proof fn a_release_shows_its_payload(
    json: JsonView,
    namespace: Option<Seq<char>>,
    name: Seq<char>,
    chart: Seq<char>,
    text: Seq<char>,
)
    ensures
        json.get("name"@) is None ==> release_of(json, namespace) is None,
        json.get("chart"@) is None ==> release_of(json, namespace) is None,
        json.get("name"@) == Some(JsonView::Str(name)) && text_at(
            part(part(json.get("chart"@), "metadata"@), "name"@),
            chart,
        ) ==> {
            let metadata = part(json.get("chart"@), "metadata"@);
            let info = json.get("info"@);
            let r = release_of(json, namespace)->0;
            &&& release_of(json, namespace) is Some
            &&& r.name == name
            &&& json.get("namespace"@) == Some(JsonView::Str(text)) ==> r.namespace == text
            &&& json.get("namespace"@) is None && namespace is Some ==> r.namespace == namespace->0
            &&& json.get("version"@) matches Some(JsonView::Int(n)) ==> r.revision == n
            &&& json.get("version"@) is None ==> r.revision == 0
            &&& text_at(part(info, "status"@), text) ==> r.status == text
            &&& part(info, "status"@) is None ==> r.status == "unknown"@
            &&& text_at(part(metadata, "version"@), text) ==> r.chart == chart + "-"@ + text
            &&& part(metadata, "version"@) is None ==> r.chart == chart
            &&& text_at(part(metadata, "appVersion"@), text) ==> r.app_version == text
            &&& part(metadata, "appVersion"@) is None ==> r.app_version.len() == 0
            &&& text_at(part(info, "last_deployed"@), text) ==> r.updated == Some(text)
            &&& part(info, "last_deployed"@) is None ==> r.updated is None
        },
{
}

/// Only releases that are there are listed.
pub proof fn only_releases_that_are_there_are_listed(
    list: Seq<ReleaseView>,
    key: (Seq<char>, Seq<char>),
)
    requires
        newest(list).dom().contains(key),
    ensures
        list.contains(newest(list)[key]),
        (newest(list)[key].namespace, newest(list)[key].name) == key,
    decreases list.len(),
{
    if list.len() > 0 {
        let front = list.drop_last();
        assert(list[list.len() - 1] == list.last());
        if newest(front).dom().contains(key) {
            only_releases_that_are_there_are_listed(front, key);
            let r = newest(front)[key];
            let i = choose|i: int| 0 <= i < front.len() && front[i] == r;
            assert(list[i] == r);
        }
    }
}

proof fn run_goes_on(a: Seq<char>, b: Seq<char>)
    requires
        split_run(a).quote is None,
        split_run(a).current.len() == 0,
        !split_run(a).any,
    ensures
        split_run(a + b) == (SplitState {
            parts: split_run(a).parts + split_run(b).parts,
            ..split_run(b)
        }),
    decreases b.len(),
{
    if b.len() == 0 {
        assert(a + b =~= a);
        assert(split_run(a).parts + split_run(b).parts =~= split_run(a).parts);
        assert(split_run(a).current =~= Seq::empty());
    } else {
        run_goes_on(a, b.drop_last());
        assert((a + b).drop_last() =~= a + b.drop_last());
        let state = split_run(b.drop_last());
        let parts = split_run(a).parts;
        assert((parts + state.parts).push(state.current) =~= parts + state.parts.push(
            state.current,
        ));
    }
}

/// White space outside of quotes parts a command line: its arguments are those in
/// front of it and then those behind it.
pub proof fn space_parts_arguments(a: Seq<char>, space: char, b: Seq<char>)
    requires
        split_run(a).quote is None,
        white_space(space),
    ensures
        words(a + seq![space] + b) == words(a) + words(b),
{
    let front = a + seq![space];
    assert(front.drop_last() =~= a);
    assert(split_run(front) == split_step(split_run(a), space));
    assert(space != '"' && space != '\'');
    assert(split_run(front) == ended(split_run(a)));
    run_goes_on(front, b);
    let state = split_run(b);
    let parts = split_run(front).parts;
    assert((parts + state.parts).push(state.current) =~= parts + state.parts.push(state.current));
    assert(words(a + seq![space] + b) =~= words(a) + words(b));
}

/// Whether nothing in a text means anything on a command line.
pub open spec fn unquoted(text: Seq<char>) -> bool {
    forall|i: int|
        0 <= i < text.len() ==> !white_space(#[trigger] text[i]) && text[i] != '"' && text[i]
            != '\''
}

proof fn plain_run(a: Seq<char>, b: Seq<char>)
    requires
        split_run(a).quote is None,
        unquoted(b),
    ensures
        split_run(a + b) == (SplitState {
            current: split_run(a).current + b,
            ..split_run(a)
        }),
    decreases b.len(),
{
    if b.len() == 0 {
        assert(a + b =~= a);
        assert(split_run(a).current + b =~= split_run(a).current);
    } else {
        let front = b.drop_last();
        assert forall|i: int| 0 <= i < front.len() implies !white_space(#[trigger] front[i])
            && front[i] != '"' && front[i] != '\'' by {
            assert(front[i] == b[i]);
        }
        plain_run(a, front);
        assert((a + b).drop_last() =~= a + front);
        assert(b[b.len() - 1] == b.last());
        assert((split_run(a).current + front).push(b.last()) =~= split_run(a).current + b);
    }
}

proof fn quoted_run(a: Seq<char>, q: char, text: Seq<char>)
    requires
        split_run(a).quote is None,
        q == '"' || q == '\'',
        !text.contains(q),
    ensures
        split_run(a + seq![q] + text) == (SplitState {
            current: split_run(a).current + text,
            quote: Some(q),
            any: true,
            ..split_run(a)
        }),
    decreases text.len(),
{
    let whole = a + seq![q] + text;
    if text.len() == 0 {
        assert(whole.drop_last() =~= a);
        assert(split_run(a).current + text =~= split_run(a).current);
    } else {
        let front = text.drop_last();
        assert forall|i: int| 0 <= i < front.len() implies front[i] != q by {
            assert(text[i] == front[i]);
        }
        assert(text[text.len() - 1] != q);
        quoted_run(a, q, front);
        assert(whole.drop_last() =~= a + seq![q] + front);
        assert((split_run(a).current + front).push(text.last()) =~= split_run(a).current + text);
    }
}

/// Quotes inside of an argument do not part it: what stands in them, spaces too,
/// belongs to it, and the quotes do not.
pub proof fn quotes_do_not_part_an_argument(
    before: Seq<char>,
    q: char,
    text: Seq<char>,
    after: Seq<char>,
)
    requires
        unquoted(before),
        unquoted(after),
        q == '"' || q == '\'',
        !text.contains(q),
    ensures
        words(before + in_quotes(q, text) + after) == seq![before + text + after],
{
    let none = Seq::<char>::empty();
    plain_run(none, before);
    assert(none + before =~= before);
    quoted_run(before, q, text);
    let open = before + seq![q] + text;
    let closed = before + in_quotes(q, text);
    assert(closed.drop_last() =~= open);
    plain_run(closed, after);
    assert(none + before + text + after =~= before + text + after);
    let state = split_run(closed + after);
    assert(state.current =~= before + text + after);
    assert(words(closed + after) =~= seq![before + text + after]);
}

/// The two outputs of a command are shown one after the other, each as it is; an
/// empty one takes no line. That a limit was reached is said, and nothing else
/// is. A command that could not be started says why; one that ran and failed does
/// not count as such.
pub proof fn both_outputs_are_shown(out: Seq<char>, err: Seq<char>, status: Status)
    ensures
        out.len() == 0 ==> stacked(out, err) == err,
        err.len() == 0 ==> stacked(out, err) == out,
        out.len() > 0 && err.len() > 0 ==> stacked(out, err) == out + "\n"@ + err,
        size_note(out, err) is Some <==> byte_length(out) >= 1_048_576 || byte_length(err)
            >= 1_048_576,
        size_note(out, err) matches Some(note) ==> note == "Output truncated at "@ + decimal(1024)
            + " KiB."@,
        start_failure(status) is Some <==> held(status.status) == Some("Failure"@) && held(
            status.reason,
        ) != Some("NonZeroExitCode"@) && (held(status.message) matches Some(m) && m.len() > 0),
        start_failure(status) matches Some(text) ==> held(status.message) == Some(text),
{
    if out.len() == 0 && err.len() == 0 {
        assert(out =~= err);
    }
}

proof fn part_occurs(parts: Seq<Seq<char>>, separator: Seq<char>, i: int)
    requires
        0 <= i < parts.len(),
    ensures
        occurs(parts[i], joined(parts, separator)),
    decreases parts.len(),
{
    let whole = joined(parts, separator);
    if parts.len() == 1 {
        occurs_in_itself(parts[0]);
    } else if i == parts.len() - 1 {
        stretch_occurs(whole, whole.len() - parts.last().len(), whole.len() as int);
        assert(whole.subrange(whole.len() - parts.last().len(), whole.len() as int)
            =~= parts.last());
    } else {
        let front = parts.drop_last();
        part_occurs(front, separator, i);
        let before = joined(front, separator);
        stretch_occurs(whole, 0, before.len() as int);
        assert(whole.subrange(0, before.len() as int) =~= before);
        occurs_transitive(parts[i], before, whole);
    }
}

proof fn distinct_keeps(chain: Seq<Seq<char>>, i: int)
    requires
        0 <= i < chain.len(),
    ensures
        distinct(chain).len() > 0,
        exists|k: int| 0 <= k < distinct(chain).len() && occurs(chain[i], #[trigger] distinct(chain)[k]),
    decreases chain.len(),
{
    let all = distinct(chain);
    if chain.len() == 1 {
        occurs_in_itself(chain[0]);
        assert(occurs(chain[i], all[0]));
    } else {
        let front = chain.drop_last();
        distinct_keeps(front, if i < front.len() {
            i
        } else {
            0
        });
        let kept = distinct(front);
        if i < front.len() {
            assert(front[i] == chain[i]);
            let k = choose|k: int| 0 <= k < kept.len() && occurs(chain[i], #[trigger] kept[k]);
            assert(all[k] == kept[k]);
            assert(occurs(chain[i], all[k]));
        } else if occurs(chain.last(), kept.last()) {
            assert(all[kept.len() - 1] == kept.last());
            assert(occurs(chain[i], all[kept.len() - 1]));
        } else {
            occurs_in_itself(chain.last());
            assert(all[kept.len() as int] == chain.last());
            assert(occurs(chain[i], all[kept.len() as int]));
        }
    }
}

/// Whether the first failure of authentication in a chain is that of a credential
/// plugin.
pub open spec fn plugin_fails_at(chain: Seq<Cause>, k: int) -> bool {
    &&& 0 <= k < chain.len()
    &&& chain[k].auth is Some
    &&& chain[k].auth != Some(AuthFailure::Other)
    &&& forall|i: int| 0 <= i < k ==> (#[trigger] chain[i]).auth is None
}

proof fn plugin_found(chain: Seq<Cause>, from: int, k: int)
    requires
        0 <= from <= k <= chain.len(),
        forall|i: int| from <= i < k ==> (#[trigger] chain[i]).auth is None,
        k < chain.len() ==> chain[k].auth is Some,
    ensures
        exec_failure(chain, from) <==> k < chain.len() && chain[k].auth != Some(
            AuthFailure::Other,
        ),
    decreases k - from,
{
    if from < k {
        plugin_found(chain, from + 1, k);
    }
}

/// A diagnosis says everything that the chain of errors says, from the outermost
/// on. Where a credential plugin failed it says behind that where programs were
/// looked for, and otherwise nothing more.
pub proof fn a_diagnosis_says_everything(
    chain: Seq<Cause>,
    path: Option<Seq<char>>,
    i: int,
    k: int,
)
    requires
        0 <= i < chain.len(),
    ensures
        occurs(chain[i].message@, diagnosis_of(chain, path)),
        plugin_fails_at(chain, k) ==> {
            let said = joined(distinct(messages(chain)), ": "@);
            let shown = match path {
                Some(path) => path,
                None => "<unset>"@,
            };
            diagnosis_of(chain, path) == said
                + ("\nthis context authenticates with an exec credential plugin, and Beacon searched PATH="@
                + shown)
        },
        (forall|m: int| 0 <= m < chain.len() ==> (#[trigger] chain[m]).auth is None)
            ==> diagnosis_of(chain, path) == joined(distinct(messages(chain)), ": "@),
        chain.len() == 1 && chain[0].auth is None ==> diagnosis_of(chain, path)
            == chain[0].message@,
{
    let all = messages(chain);
    let kept = distinct(all);
    let said = joined(kept, ": "@);
    distinct_keeps(all, i);
    let at = choose|at: int| 0 <= at < kept.len() && occurs(all[i], #[trigger] kept[at]);
    part_occurs(kept, ": "@, at);
    occurs_transitive(all[i], kept[at], said);
    let whole = diagnosis_of(chain, path);
    stretch_occurs(whole, 0, said.len() as int);
    assert(whole.subrange(0, said.len() as int) =~= said);
    occurs_transitive(all[i], said, whole);
    if plugin_fails_at(chain, k) {
        plugin_found(chain, 0, k);
    }
    if forall|m: int| 0 <= m < chain.len() ==> (#[trigger] chain[m]).auth is None {
        plugin_found(chain, 0, chain.len() as int);
    }
}

/// Every error says what it is about and why.
pub proof fn errors_say_what_and_why(cause: String, context: String)
    ensures
        message_of(Error::Kubeconfig(cause)) == "failed to read kubeconfig: "@ + cause@,
        message_of(Error::Api(cause)) == "kubernetes api: "@ + cause@,
        message_of(Error::UnknownContext(context)) == "context "@ + quoted(context@)
            + " is not present in the kubeconfig"@,
        message_of(Error::Forward { what: context, cause }) == context@ + ": "@ + cause@,
        message_of(Error::Connect { context, diagnosis: cause }) == "could not connect to "@
            + context@ + (": "@ + cause@),
{
}

proof fn trimmed_same(s: Seq<char>)
    requires
        s.len() > 0,
        !white_space(s[0]),
        !white_space(s.last()),
    ensures
        trimmed(s) == s,
{
}

/// A line of a conflict that lists a field adds that field, and no manager.
pub proof fn a_listed_field_is_taken(c: ConflictView, field: Seq<char>)
    requires
        field.len() > 0,
        !white_space(field[0]),
        !white_space(field.last()),
    ensures
        line_read(c, "- "@ + field).fields == (if c.fields.contains(field) {
            c.fields
        } else {
            c.fields.push(field)
        }),
        line_read(c, "- "@ + field).managers == c.managers,
{
    reveal_strlit("- ");
    let line = "- "@ + field;
    assert(line[0] == '-');
    assert(line.last() == field.last());
    trimmed_same(line);
    trimmed_same(field);
    assert(line.skip(2) =~= field);
    assert("- "@.is_prefix_of(line));
}

/// What stands in quotes behind a conflict is the manager, and what follows the
/// colon is the field where it begins like one.
pub proof fn a_manager_is_taken(
    c: ConflictView,
    manager: Seq<char>,
    using: Seq<char>,
    field: Seq<char>,
)
    requires
        manager.len() > 0,
        !manager.contains('"'),
        !using.contains(':'),
        field.len() > 0,
        field[0] == '.',
        !white_space(field.last()),
    ensures
        ({
            let fragment = seq!['"'] + manager + seq!['"'] + using;
            let told = fragment_read(c, fragment + seq![':', ' '] + field);
            let untold = fragment_read(c, fragment);
            let managers = if c.managers.contains(manager) {
                c.managers
            } else {
                c.managers.push(manager)
            };
            &&& told.managers == managers
            &&& told.fields == (if c.fields.contains(field) {
                c.fields
            } else {
                c.fields.push(field)
            })
            &&& untold.managers == managers
            &&& untold.fields == c.fields
        }),
{
    let fragment = seq!['"'] + manager + seq!['"'] + using;
    let told = fragment + seq![':', ' '] + field;
    let rest = using + seq![':', ' '] + field;
    manager_cut(manager, using);
    manager_cut(manager, rest);
    assert(fragment.drop_first() =~= manager + seq!['"'] + using);
    assert(told.drop_first() =~= manager + seq!['"'] + rest);
    reveal_strlit(":");
    a_cut_is_at_the_first_mark(using, ":"@);
    if let Some((x, y)) = cut(using, ":"@) {
        assert(using == x + ":"@ + y);
        assert(using[x.len() as int] == ':');
    }
    a_cut_is_at_the_first_mark(rest, ":"@);
    let at = using.len() as int;
    assert(rest.subrange(at, at + 1) =~= ":"@);
    assert(stands_at(":"@, rest, at));
    assert(occurs(":"@, rest));
    let (x, y) = cut(rest, ":"@)->0;
    assert(x.len() <= at);
    assert(rest[x.len() as int] == (x + ":"@ + y)[x.len() as int]);
    if x.len() < at {
        assert(using[x.len() as int] == ':');
    }
    let behind = seq![' '] + field;
    assert(y =~= behind) by {
        assert(y =~= rest.skip(at + 1));
        assert(rest.skip(at + 1) =~= behind);
    }
    assert(behind.drop_first() =~= field);
    assert(trimmed(behind) == field) by {
        reveal_with_fuel(stripped_start, 3);
        assert(!white_space(field[0]));
    }
    assert(trailing_field(rest) == Some(field));
}

proof fn manager_cut(manager: Seq<char>, rest: Seq<char>)
    requires
        !manager.contains('"'),
    ensures
        cut(manager + seq!['"'] + rest, "\""@) == Some((manager, rest)),
{
    reveal_strlit("\"");
    let whole = manager + seq!['"'] + rest;
    a_cut_is_at_the_first_mark(whole, "\""@);
    let at = manager.len() as int;
    assert(whole.subrange(at, at + 1) =~= "\""@);
    assert(stands_at("\""@, whole, at));
    assert(occurs("\""@, whole));
    let (x, y) = cut(whole, "\""@)->0;
    assert(x.len() <= at);
    assert(whole[x.len() as int] == (x + "\""@ + y)[x.len() as int]);
    if x.len() < at {
        assert(manager[x.len() as int] == '"');
    }
    assert(x =~= manager) by {
        assert forall|i: int| 0 <= i < at implies x[i] == manager[i] by {
            assert((x + "\""@ + y)[i] == x[i]);
            assert(whole[i] == manager[i]);
        }
    }
    assert(y =~= rest) by {
        assert(y =~= whole.skip(at + 1));
        assert(whole.skip(at + 1) =~= rest);
    }
}

/// Whether bytes are compressed, by what they begin with.
pub open spec fn compressed(bytes: Seq<u8>) -> bool {
    bytes.len() >= 2 && bytes[0] == 0x1f && bytes[1] == 0x8b
}

/// Whether the first byte that is no white space stands at a place.
pub open spec fn begins_at(bytes: Seq<u8>, k: int) -> bool {
    &&& 0 <= k < bytes.len()
    &&& !seq![0x20u8, 0x09u8, 0x0au8, 0x0cu8, 0x0du8].contains(bytes[k])
    &&& forall|i: int|
        0 <= i < k ==> seq![0x20u8, 0x09u8, 0x0au8, 0x0cu8, 0x0du8].contains(#[trigger] bytes[i])
}

proof fn beginning_found(bytes: Seq<u8>, from: int, k: int)
    requires
        begins_at(bytes, k),
        0 <= from <= k,
    ensures
        opens_object(bytes, from) == (bytes[k] == 0x7b),
    decreases k - from,
{
    let space = seq![0x20u8, 0x09u8, 0x0au8, 0x0cu8, 0x0du8];
    assert(space[0] == 0x20 && space[1] == 0x09 && space[2] == 0x0a && space[3] == 0x0c && space[4]
        == 0x0d);
    if from < k {
        assert(space.contains(bytes[from]));
        beginning_found(bytes, from + 1, k);
    }
}

/// A payload is peeled layer by layer. JSON is taken as it is, behind whatever
/// white space; what is compressed is decompressed; and anything else is decoded
/// and looked at again, as long as there are layers left.
pub proof fn a_payload_is_peeled(bytes: Seq<u8>, layers: nat, k: int)
    requires
        begins_at(bytes, k),
    ensures
        peeled(bytes, 0) is None,
        layers > 0 && !compressed(bytes) && bytes[k] == 0x7b ==> peeled(bytes, layers) == Some(
            bytes,
        ),
        layers > 0 && compressed(bytes) && gunzipped(bytes) is Some ==> peeled(bytes, layers)
            == gunzipped(bytes),
        layers > 0 && !compressed(bytes) && bytes[k] != 0x7b ==> peeled(bytes, layers) == (
        match base64_decoded(bytes) {
            Some(inner) => peeled(inner, (layers - 1) as nat),
            None => None,
        }),
{
    beginning_found(bytes, 0, k);
}

/// A release is read from what its secret holds under `release`: decoded twice,
/// decompressed and parsed.
pub proof fn a_secret_holds_its_release(
    secret: ObjectView,
    payload: Seq<char>,
    once: Seq<u8>,
    twice: Seq<u8>,
    json: Seq<u8>,
)
    requires
        part(secret.data.get("data"@), "release"@) == Some(JsonView::Str(payload)),
        begins_at(vstd::utf8::encode_utf8(trimmed(payload)), 0),
        !compressed(vstd::utf8::encode_utf8(trimmed(payload))),
        vstd::utf8::encode_utf8(trimmed(payload))[0] != 0x7b,
        base64_decoded(vstd::utf8::encode_utf8(trimmed(payload))) == Some(once),
        begins_at(once, 0),
        !compressed(once),
        once[0] != 0x7b,
        base64_decoded(once) == Some(twice),
        compressed(twice),
        gunzipped(twice) == Some(json),
    ensures
        payload_json(payload) == parsed_json(json),
        secret_release(secret) == (match parsed_json(json) {
            Some(release) => release_of(release, secret.metadata.namespace),
            None => None,
        }),
{
    let bytes = vstd::utf8::encode_utf8(trimmed(payload));
    reveal_with_fuel(peeled, 5);
    beginning_found(bytes, 0, 0);
    beginning_found(once, 0, 0);
}

/// A secret without a payload is no release.
pub proof fn a_secret_without_a_payload_is_no_release(secret: ObjectView)
    requires
        !(part(secret.data.get("data"@), "release"@) is Some && part(
            secret.data.get("data"@),
            "release"@,
        )->0 is Str),
    ensures
        secret_release(secret) is None,
{
}

proof fn uncut(s: Seq<char>, mark: Seq<char>)
    requires
        !occurs(mark, s),
    ensures
        cut(s, mark) is None,
{
    a_cut_is_at_the_first_mark(s, mark);
    if let Some((x, y)) = cut(s, mark) {
        let k = x.len() as int;
        assert(s.subrange(k, k + mark.len()) =~= mark);
        assert(stands_at(mark, s, k));
    }
}

/// What a line of a conflict says comes behind "conflict with", or behind
/// "conflicts with".
pub proof fn a_line_says_whom_it_conflicts_with(
    c: ConflictView,
    before: Seq<char>,
    fragment: Seq<char>,
    plural: bool,
)
    requires
        !occurs("conflicts with "@, fragment),
        !occurs("conflict with "@, fragment),
        forall|i: int|
            0 <= i < before.len() ==> !#[trigger] stands_at(
                "conflicts with "@,
                before + "conflicts with "@ + fragment,
                i,
            ),
        forall|i: int|
            0 <= i < before.len() ==> !#[trigger] stands_at(
                "conflict with "@,
                before + "conflict with "@ + fragment,
                i,
            ),
        !plural ==> !occurs("conflicts with "@, before + "conflict with "@ + fragment),
    ensures
        ({
            let mark = if plural {
                "conflicts with "@
            } else {
                "conflict with "@
            };
            let line = before + mark + fragment;
            &&& fragments_of(line) == seq![fragment]
            &&& trimmed(line) == line && !"- "@.is_prefix_of(line) ==> line_read(c, line)
                == fragment_read(c, fragment)
        }),
{
    reveal_strlit("conflicts with ");
    reveal_strlit("conflict with ");
    let one = "conflict with "@;
    let many = "conflicts with "@;
    uncut(fragment, one);
    uncut(fragment, many);
    a_mark_parts_a_text(before, many, fragment);
    a_mark_parts_a_text(before, one, fragment);
    reveal_with_fuel(replaced, 2);
    reveal_with_fuel(parted, 2);
    if !plural {
        uncut(before + one + fragment, many);
    }
    let line = before + (if plural {
        many
    } else {
        one
    }) + fragment;
    assert(replaced(line, many, one) == before + one + fragment);
    assert(parted(before + one + fragment, one) =~= seq![before, fragment]);
    assert(fragments_of(line) =~= seq![fragment]);
    assert(seq![fragment].drop_last() =~= Seq::empty());
    reveal_with_fuel(fragments_read, 2);
}

/// A message is read line by line.
pub proof fn a_message_is_read_line_by_line(first: Seq<char>, second: Seq<char>)
    requires
        !first.contains('\n'),
        !second.contains('\n'),
        first.len() > 0,
        second.len() > 0,
        first.last() != '\r',
        second.last() != '\r',
    ensures
        ({
            let nothing = ConflictView { fields: Seq::empty(), managers: Seq::empty() };
            &&& conflict_of(Seq::empty()) == nothing
            &&& conflict_of(first) == line_read(nothing, first)
            &&& conflict_of(first.push('\n') + second) == line_read(
                line_read(nothing, first),
                second,
            )
        }),
{
    the_last_piece_follows_the_last_separator(first, '\n', second);
    the_last_piece_follows_the_last_separator(first, '\n', first);
    let nothing = Seq::<char>::empty();
    the_last_piece_follows_the_last_separator(first, '\n', nothing);
    reveal_with_fuel(lines_read, 3);
    assert(text_lines(nothing) =~= Seq::empty());
    assert(text_lines(first) =~= seq![first]);
    assert(seq![first].drop_last() =~= Seq::empty());
    let both = first.push('\n') + second;
    assert(pieces(both, '\n') =~= seq![first, second]);
    assert(text_lines(both) =~= seq![first, second]);
    assert(seq![first, second].drop_last() =~= seq![first]);
}

/// Where no kubeconfig was found, it is said where one was looked for and how to
/// get one.
pub proof fn a_missing_kubeconfig_says_where_it_was_looked_for(searched: Vec<String>)
    ensures
        message_of(Error::NoKubeconfig { searched }) == "no kubeconfig found (looked at ["@ + joined(
            each(searched@).map_values(|path: Seq<char>| quoted(path)),
            ", "@,
        ) + "]); set KUBECONFIG or create ~/.kube/config"@,
{
}

} // verus!
