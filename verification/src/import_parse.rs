//! Reading an upload: its file type, its dataset, its header row, and its CSV records.
use crate::import_catalog::{
    institution_table_names, invalid_input, institution_tables, strs_view, table_spec, table_spec_of,
    ImportFileType, ImportLimits, ImportMode, InstitutionError,
};
use crate::import_review::joined;
use crate::import_rows::{required_fields, source_row, strings_view, SourceRow};
use crate::text::{
    ascii_lower, ascii_lower_seq, ascii_lowercase, chars_eq, chars_of, concat_str, has_infix,
    has_prefix, has_suffix, chars_contains, chars_ends_with, chars_starts_with, str_eq,
    string_from_chars, trim_chars, trim_spec,
};
use vstd::prelude::*;

verus! {

/// Whether a header row is acceptable for a dataset: between one and `max_columns`
/// columns; each trimmed name non-empty, unique and a column of the dataset; and every
/// column that must hold a value present.
pub open spec fn headers_valid(
    table: Seq<char>,
    headers: Seq<Seq<char>>,
    max_columns: nat,
    mode: ImportMode,
) -> bool {
    let names = headers.map_values(|h: Seq<char>| trim_spec(h));
    let spec = table_spec_of(table);
    &&& 1 <= names.len() <= max_columns
    &&& forall|i: int| 0 <= i < names.len() ==> #[trigger] names[i].len() > 0
    &&& forall|i: int, j: int| 0 <= i < j < names.len() ==> names[i] != names[j]
    &&& forall|i: int| 0 <= i < names.len() ==> spec.columns.contains(#[trigger] names[i])
    &&& forall|k: int| 0 <= k < required_fields(spec, mode).len() ==> names.contains(
        #[trigger] required_fields(spec, mode)[k],
    )
}

fn contains_chars(v: &Vec<Vec<char>>, x: &Vec<char>) -> (r: bool)
    ensures
        r == exists|k: int| 0 <= k < v@.len() && #[trigger] v@[k]@ == x@,
{
    let mut i: usize = 0;
    while i < v.len()
        invariant
            i <= v@.len(),
            forall|k: int| 0 <= k < i ==> #[trigger] v@[k]@ != x@,
        decreases v@.len() - i,
    {
        if chars_eq(&v[i], x) {
            return true;
        }
        i = i + 1;
    }
    false
}

fn contains_name(v: &Vec<&'static str>, x: &Vec<char>) -> (r: bool)
    ensures
        r == strs_view(v@).contains(x@),
{
    let mut i: usize = 0;
    while i < v.len()
        invariant
            i <= v@.len(),
            forall|k: int| 0 <= k < i ==> #[trigger] strs_view(v@)[k] != x@,
        decreases v@.len() - i,
    {
        if chars_eq(&chars_of(v[i]), x) {
            assert(strs_view(v@)[i as int] == x@);
            return true;
        }
        i = i + 1;
    }
    false
}

/// The first header problem from column `i` on: an empty or repeated name, then a name
/// that is not a column of the dataset.
pub open spec fn column_problem(table: Seq<char>, names: Seq<Seq<char>>, columns: Seq<Seq<char>>, i: int) -> Option<
    Seq<char>,
>
    decreases names.len() - i,
{
    if i < 0 || i >= names.len() {
        None
    } else if names[i].len() == 0 || names.take(i).contains(names[i]) {
        Some(table + ": empty or duplicate column "@ + names[i])
    } else if !columns.contains(names[i]) {
        Some(table + ": unknown column "@ + names[i])
    } else {
        column_problem(table, names, columns, i + 1)
    }
}

/// The first column from position `k` on that must hold a value and is missing.
pub open spec fn missing_problem(table: Seq<char>, names: Seq<Seq<char>>, required: Seq<Seq<char>>, k: int) -> Option<
    Seq<char>,
>
    decreases required.len() - k,
{
    if k < 0 || k >= required.len() {
        None
    } else if !names.contains(required[k]) {
        Some(table + ": missing required column "@ + required[k])
    } else {
        missing_problem(table, names, required, k + 1)
    }
}

/// What is wrong with a header row, checked in order: the column count, each column in
/// turn, then each column that must hold a value.
pub open spec fn header_problem(
    table: Seq<char>,
    headers: Seq<Seq<char>>,
    max_columns: nat,
    mode: ImportMode,
) -> Option<Seq<char>> {
    let names = headers.map_values(|h: Seq<char>| trim_spec(h));
    let spec = table_spec_of(table);
    if !(1 <= names.len() <= max_columns) {
        Some(table + ": invalid column count"@)
    } else if column_problem(table, names, spec.columns, 0) is Some {
        column_problem(table, names, spec.columns, 0)
    } else {
        missing_problem(table, names, required_fields(spec, mode), 0)
    }
}

/// Checks a header row against a known dataset.
pub fn validate_headers(
    table: &str,
    headers: &Vec<String>,
    limits: &ImportLimits,
    mode: ImportMode,
) -> (r: Result<(), InstitutionError>)
    requires
        institution_table_names().contains(table@),
    ensures
        r is Ok <==> headers_valid(table@, strings_view(headers@), limits.max_columns as nat, mode),
        match header_problem(table@, strings_view(headers@), limits.max_columns as nat, mode) {
            None => r is Ok,
            Some(m) => r matches Err(InstitutionError::InvalidInput(x)) && x@ == m,
        },
{
    let ghost hv = strings_view(headers@);
    let ghost names = hv.map_values(|h: Seq<char>| trim_spec(h));
    let ghost cols = table_spec_of(table@).columns;
    let spec = table_spec(table);
    if headers.len() == 0 || headers.len() > limits.max_columns {
        return Err(InstitutionError::InvalidInput(concat_str(table, ": invalid column count")));
    }
    let mut seen: Vec<Vec<char>> = Vec::new();
    let mut i: usize = 0;
    while i < headers.len()
        invariant
            hv == strings_view(headers@),
            names == hv.map_values(|h: Seq<char>| trim_spec(h)),
            spec@ == table_spec_of(table@),
            cols == table_spec_of(table@).columns,
            i <= headers@.len(),
            seen@.len() == i,
            forall|k: int| 0 <= k < i ==> #[trigger] seen@[k]@ == names[k],
            forall|k: int| 0 <= k < i ==> #[trigger] names[k].len() > 0,
            forall|a: int, b: int| 0 <= a < b < i ==> names[a] != names[b],
            forall|k: int| 0 <= k < i ==> spec@.columns.contains(#[trigger] names[k]),
            column_problem(table@, names, cols, 0) == column_problem(table@, names, cols, i as int),
            1 <= names.len() <= limits.max_columns,
        decreases headers@.len() - i,
    {
        let name = trim_chars(&chars_of(headers[i].as_str()));
        assert(names[i as int] == name@);
        let repeated = contains_chars(&seen, &name);
        proof {
            assert(names.take(i as int).contains(names[i as int]) <==> repeated) by {
                if repeated {
                    let k = choose|k: int| 0 <= k < seen@.len() && #[trigger] seen@[k]@ == name@;
                    assert(names.take(i as int)[k] == names[i as int]);
                }
                if names.take(i as int).contains(names[i as int]) {
                    let k = choose|k: int| 0 <= k < i && names.take(i as int)[k] == names[i as int];
                    assert(seen@[k]@ == name@);
                }
            }
        }
        if name.len() == 0 || repeated {
            proof {
                if name@.len() > 0 {
                    let k = choose|k: int| 0 <= k < seen@.len() && #[trigger] seen@[k]@ == name@;
                    assert(names[k] == names[i as int]);
                }
            }
            assert(1 <= names.len() <= limits.max_columns);
            assert(column_problem(table@, names, cols, i as int) == Some(
                table@ + ": empty or duplicate column "@ + names[i as int],
            ));
            let a = concat_str(table, ": empty or duplicate column ");
            let b = string_from_chars(&name);
            return Err(InstitutionError::InvalidInput(concat_str(a.as_str(), b.as_str())));
        }
        if !contains_name(&spec.columns, &name) {
            assert(1 <= names.len() <= limits.max_columns);
            assert(column_problem(table@, names, cols, i as int) == Some(
                table@ + ": unknown column "@ + names[i as int],
            ));
            let a = concat_str(table, ": unknown column ");
            let b = string_from_chars(&name);
            return Err(InstitutionError::InvalidInput(concat_str(a.as_str(), b.as_str())));
        }
        proof {
            assert forall|a: int| 0 <= a < i implies names[a] != names[i as int] by {
                assert(seen@[a]@ == names[a]);
            }
        }
        seen.push(name);
        i = i + 1;
    }
    assert(column_problem(table@, names, cols, names.len() as int) is None);
    assert(1 <= names.len() <= limits.max_columns);
    let required = if mode == ImportMode::UpdateOnly || mode == ImportMode::DeleteOnly {
        &spec.keys
    } else {
        &spec.required
    };
    let ghost rv = strs_view(required@);
    assert(rv == required_fields(table_spec_of(table@), mode));
    let mut j: usize = 0;
    while j < required.len()
        invariant
            rv == strs_view(required@),
            rv == required_fields(table_spec_of(table@), mode),
            names == strings_view(headers@).map_values(|h: Seq<char>| trim_spec(h)),
            j <= required@.len(),
            seen@.len() == names.len(),
            forall|k: int| 0 <= k < names.len() ==> #[trigger] seen@[k]@ == names[k],
            forall|k: int| 0 <= k < j ==> names.contains(#[trigger] rv[k]),
            missing_problem(table@, names, rv, 0) == missing_problem(table@, names, rv, j as int),
            column_problem(table@, names, table_spec_of(table@).columns, 0) is None,
            1 <= names.len() <= limits.max_columns,
        decreases required@.len() - j,
    {
        let wanted = chars_of(required[j]);
        assert(rv[j as int] == wanted@);
        if !contains_chars(&seen, &wanted) {
            proof {
                if names.contains(wanted@) {
                    let k = choose|k: int| 0 <= k < names.len() && names[k] == wanted@;
                    assert(seen@[k]@ == wanted@);
                }
                assert(!names.contains(rv[j as int]));
                assert(!names.contains(required_fields(table_spec_of(table@), mode)[j as int]));
                assert(!headers_valid(table@, strings_view(headers@), limits.max_columns as nat, mode));
            }
            assert(missing_problem(table@, names, rv, j as int) == Some(
                table@ + ": missing required column "@ + rv[j as int],
            ));
            let a = concat_str(table, ": missing required column ");
            return Err(InstitutionError::InvalidInput(concat_str(a.as_str(), required[j])));
        }
        proof {
            let k = choose|k: int| 0 <= k < seen@.len() && #[trigger] seen@[k]@ == wanted@;
            assert(names[k] == wanted@);
        }
        j = j + 1;
    }
    Ok(())
}

/// Index of the last `c` in `s`, or -1.
pub open spec fn last_index_of(s: Seq<char>, c: char) -> int
    decreases s.len(),
{
    if s.len() == 0 {
        -1
    } else if s.last() == c {
        s.len() - 1
    } else {
        last_index_of(s.drop_last(), c)
    }
}

proof fn lemma_last_index_bounds(s: Seq<char>, c: char)
    ensures
        -1 <= last_index_of(s, c) < s.len(),
        last_index_of(s, c) >= 0 ==> s[last_index_of(s, c)] == c,
        forall|k: int| last_index_of(s, c) < k < s.len() ==> s[k] != c,
    decreases s.len(),
{
    if s.len() > 0 && s.last() != c {
        lemma_last_index_bounds(s.drop_last(), c);
        assert forall|k: int| last_index_of(s, c) < k < s.len() implies s[k] != c by {
            if k < s.len() - 1 {
                assert(s.drop_last()[k] == s[k]);
            }
        }
    }
}

fn last_dot(s: &Vec<char>) -> (r: Option<usize>)
    ensures
        match r {
            Some(k) => k as int == last_index_of(s@, '.'),
            None => last_index_of(s@, '.') == -1,
        },
{
    proof {
        lemma_last_index_bounds(s@, '.');
    }
    let mut i: usize = s.len();
    while i > 0
        invariant
            i <= s@.len(),
            forall|k: int| i <= k < s@.len() ==> s@[k] != '.',
        decreases i,
    {
        if s[i - 1] == '.' {
            proof {
                lemma_last_index_bounds(s@, '.');
                let l = last_index_of(s@, '.');
                if l != i - 1 {
                    assert(l < i - 1 || l >= i);
                }
            }
            return Some(i - 1);
        }
        i = i - 1;
    }
    proof {
        lemma_last_index_bounds(s@, '.');
    }
    None
}

/// The extension of a file name: the text after its last dot, if it has one.
pub open spec fn extension_of(name: Seq<char>) -> Option<Seq<char>> {
    let k = last_index_of(name, '.');
    if k >= 0 {
        Some(name.subrange(k + 1, name.len() as int))
    } else {
        None
    }
}

/// The upload format a file name's extension names, ignoring ASCII case.
pub open spec fn file_type_of(name: Seq<char>) -> Option<ImportFileType> {
    match extension_of(name) {
        Some(e) => if ascii_lower_seq(e) == "csv"@ {
            Some(ImportFileType::Csv)
        } else if ascii_lower_seq(e) == "xlsx"@ {
            Some(ImportFileType::Xlsx)
        } else {
            None
        },
        None => None,
    }
}

fn subrange_chars(s: &Vec<char>, from: usize, to: usize) -> (r: Vec<char>)
    requires
        from <= to <= s@.len(),
    ensures
        r@ == s@.subrange(from as int, to as int),
{
    let mut r: Vec<char> = Vec::new();
    let mut i: usize = from;
    while i < to
        invariant
            from <= i <= to,
            to <= s@.len(),
            r@ == s@.subrange(from as int, i as int),
        decreases to - i,
    {
        r.push(s[i]);
        assert(s@.subrange(from as int, i + 1) =~= s@.subrange(from as int, i as int).push(s@[i as int]));
        i = i + 1;
    }
    r
}

/// The upload format of a file, by its extension.
pub fn file_type(filename: &str) -> (r: Result<ImportFileType, InstitutionError>)
    ensures
        match file_type_of(filename@) {
            Some(t) => r == Ok::<ImportFileType, InstitutionError>(t),
            None => r matches Err(e) && invalid_input(e, "only CSV and XLSX are supported"@),
        },
{
    let s = chars_of(filename);
    let n = s.len();
    proof {
        lemma_last_index_bounds(s@, '.');
    }
    match last_dot(&s) {
        None => Err(InstitutionError::InvalidInput("only CSV and XLSX are supported".to_owned())),
        Some(k) => {
            let ext = ascii_lowercase(&subrange_chars(&s, k + 1, n));
            if chars_eq(&ext, &chars_of("csv")) {
                Ok(ImportFileType::Csv)
            } else if chars_eq(&ext, &chars_of("xlsx")) {
                Ok(ImportFileType::Xlsx)
            } else {
                Err(InstitutionError::InvalidInput("only CSV and XLSX are supported".to_owned()))
            }
        },
    }
}

/// A file-name character as a dataset-name character: ASCII letters and digits,
/// lower-cased; anything else an underscore.
pub open spec fn normalized_char(c: char) -> char {
    if ('a' <= c <= 'z') || ('A' <= c <= 'Z') || ('0' <= c <= '9') {
        ascii_lower(c)
    } else {
        '_'
    }
}

/// The normalized stem of a file name: before its last dot, mapped character by character.
pub open spec fn normalized_stem(name: Seq<char>) -> Seq<char> {
    let k = last_index_of(name, '.');
    let stem = if k >= 0 {
        name.subrange(0, k)
    } else {
        name
    };
    stem.map_values(|c: char| normalized_char(c))
}

/// Whether a normalized stem mentions a dataset as a whole underscore-separated part.
pub open spec fn mentions_table(stem: Seq<char>, table: Seq<char>) -> bool {
    ||| has_prefix(stem, table + "_"@)
    ||| has_suffix(stem, "_"@ + table)
    ||| has_infix(stem, "_"@ + table + "_"@)
}

/// Whether `t` is the dataset a CSV file name names: the dataset equal to the normalized
/// stem; else the longest dataset the stem mentions, the last of equally long ones in
/// catalog order; else none.
pub open spec fn infers_table(name: Seq<char>, t: Option<Seq<char>>) -> bool {
    let stem = normalized_stem(name);
    let tables = institution_table_names();
    if tables.contains(stem) {
        t == Some(stem)
    } else if exists|i: int| 0 <= i < tables.len() && #[trigger] mentions_table(stem, tables[i]) {
        exists|i: int|
            0 <= i < tables.len() && t == Some(tables[i]) && mentions_table(stem, tables[i]) && (
            forall|j: int|
                0 <= j < tables.len() && #[trigger] mentions_table(stem, tables[j]) ==> tables[j].len()
                    <= tables[i].len()) && (forall|j: int|
                i < j < tables.len() && #[trigger] mentions_table(stem, tables[j]) ==> tables[j].len()
                    < tables[i].len())
    } else {
        t is None
    }
}

fn normalize_stem(s: &Vec<char>) -> (r: Vec<char>)
    ensures
        r@ == normalized_stem(s@),
{
    proof {
        lemma_last_index_bounds(s@, '.');
    }
    let end = match last_dot(s) {
        Some(k) => k,
        None => s.len(),
    };
    let mut r: Vec<char> = Vec::new();
    let mut i: usize = 0;
    while i < end
        invariant
            end <= s@.len(),
            i <= end,
            r@.len() == i,
            forall|k: int| 0 <= k < i ==> #[trigger] r@[k] == normalized_char(s@[k]),
        decreases end - i,
    {
        let c = s[i];
        let alnum = ('a' <= c && c <= 'z') || ('A' <= c && c <= 'Z') || ('0' <= c && c <= '9');
        let n = if alnum { crate::text::to_ascii_lower_char(c) } else { '_' };
        r.push(n);
        i = i + 1;
    }
    proof {
        let k = last_index_of(s@, '.');
        let stem = if k >= 0 { s@.subrange(0, k) } else { s@ };
        assert(stem.len() == end);
        assert(r@ =~= stem.map_values(|c: char| normalized_char(c)));
    }
    r
}

fn mentions(stem: &Vec<char>, table: &str) -> (b: bool)
    ensures
        b == mentions_table(stem@, table@),
{
    let t = chars_of(table);
    let mut with_tail = t.clone();
    with_tail.push('_');
    let mut with_head: Vec<char> = vec!['_'];
    let mut k: usize = 0;
    while k < t.len()
        invariant
            k <= t@.len(),
            with_head@ == seq!['_'] + t@.subrange(0, k as int),
        decreases t@.len() - k,
    {
        with_head.push(t[k]);
        assert(t@.subrange(0, k + 1) =~= t@.subrange(0, k as int).push(t@[k as int]));
        k = k + 1;
    }
    let mut both = with_head.clone();
    both.push('_');
    proof {
        reveal_strlit("_");
        assert(with_tail@ =~= table@ + "_"@);
        assert(with_head@ =~= "_"@ + table@);
        assert(both@ =~= "_"@ + table@ + "_"@);
    }
    chars_starts_with(stem, &with_tail) || chars_ends_with(stem, &with_head) || chars_contains(stem, &both)
}

/// The dataset a CSV file name names, if any.
pub fn infer_csv_table(filename: &str) -> (r: Option<&'static str>)
    ensures
        infers_table(
            filename@,
            match r {
                Some(t) => Some(t@),
                None => None,
            },
        ),
{
    let stem = normalize_stem(&chars_of(filename));
    let tables = institution_tables();
    let ghost names = institution_table_names();
    let mut i: usize = 0;
    while i < tables.len()
        invariant
            strs_view(tables@) == names,
            names == institution_table_names(),
            stem@ == normalized_stem(filename@),
            i <= tables@.len(),
            forall|k: int| 0 <= k < i ==> names[k] != stem@,
        decreases tables@.len() - i,
    {
        assert(names[i as int] == tables@[i as int]@);
        if chars_eq(&chars_of(tables[i]), &stem) {
            assert(names[i as int] == stem@);
            assert(names.contains(stem@));
            return Some(tables[i]);
        }
        i = i + 1;
    }
    let mut best: Option<usize> = None;
    let mut j: usize = 0;
    while j < tables.len()
        invariant
            strs_view(tables@) == names,
            names == institution_table_names(),
            !names.contains(stem@),
            stem@ == normalized_stem(filename@),
            j <= tables@.len(),
            match best {
                None => forall|k: int| 0 <= k < j ==> !#[trigger] mentions_table(stem@, names[k]),
                Some(b) => {
                    &&& b < j
                    &&& mentions_table(stem@, names[b as int])
                    &&& forall|k: int|
                        0 <= k < j && #[trigger] mentions_table(stem@, names[k]) ==> names[k].len()
                            <= names[b as int].len()
                    &&& forall|k: int|
                        b < k < j && #[trigger] mentions_table(stem@, names[k]) ==> names[k].len()
                            < names[b as int].len()
                },
            },
        decreases tables@.len() - j,
    {
        assert(names[j as int] == tables@[j as int]@);
        if mentions(&stem, tables[j]) {
            let replace = match best {
                None => true,
                Some(b) => chars_of(tables[j]).len() >= chars_of(tables[b]).len(),
            };
            if replace {
                best = Some(j);
            }
        }
        j = j + 1;
    }
    match best {
        None => None,
        Some(b) => {
            assert(names[b as int] == tables@[b as int]@);
            Some(tables[b])
        },
    }
}

/// Whether exactly dataset `i` accepts the header row.
pub open spec fn only_valid_table(headers: Seq<Seq<char>>, mode: ImportMode, i: int) -> bool {
    let tables = institution_table_names();
    &&& 0 <= i < tables.len()
    &&& headers_valid(tables[i], headers, 128, mode)
    &&& forall|j: int| 0 <= j < tables.len() && j != i ==> !#[trigger] headers_valid(tables[j], headers, 128, mode)
}

/// The datasets among the first `k` of the catalog whose columns, under the default
/// limits, accept a header row, in catalog order.
pub open spec fn valid_tables(headers: Seq<Seq<char>>, mode: ImportMode, k: int) -> Seq<Seq<char>>
    decreases k,
{
    if k <= 0 {
        seq![]
    } else if headers_valid(institution_table_names()[k - 1], headers, 128, mode) {
        valid_tables(headers, mode, k - 1).push(institution_table_names()[k - 1])
    } else {
        valid_tables(headers, mode, k - 1)
    }
}

/// The dataset a CSV header row names: the only dataset whose catalog, under the default
/// limits, accepts the row. With none, or several (which the message lists), the row is
/// refused.
pub fn infer_csv_table_from_headers(headers: &Vec<String>, mode: ImportMode) -> (r: Result<
    &'static str,
    InstitutionError,
>)
    ensures
        r is Ok <==> exists|i: int| only_valid_table(strings_view(headers@), mode, i),
        r matches Ok(t) ==> exists|i: int|
            only_valid_table(strings_view(headers@), mode, i) && institution_table_names()[i] == t@,
        r matches Err(e) ==> ({
            let vt = valid_tables(strings_view(headers@), mode, institution_table_names().len() as int);
            if vt.len() == 0 {
                invalid_input(e, "CSV columns do not match a supported dataset; check the header row"@)
            } else {
                invalid_input(e, "What data is this? Matching datasets: "@ + joined(vt, ", "@))
            }
        }),
{
    let tables = institution_tables();
    let ghost names = institution_table_names();
    let limits = ImportLimits::default();
    let mut found: Option<usize> = None;
    let mut count: usize = 0;
    let mut candidates: Vec<&'static str> = Vec::new();
    let mut i: usize = 0;
    while i < tables.len()
        invariant
            strs_view(candidates@) == valid_tables(strings_view(headers@), mode, i as int),
            candidates@.len() == count,
            strs_view(tables@) == names,
            names == institution_table_names(),
            limits.max_columns == 128,
            i <= tables@.len(),
            count <= i,
            count == 0 ==> found is None && forall|k: int|
                0 <= k < i ==> !#[trigger] headers_valid(names[k], strings_view(headers@), 128, mode),
            count == 1 ==> (found matches Some(f) && f < i && headers_valid(names[f as int], strings_view(headers@), 128, mode)
                && forall|k: int|
                0 <= k < i && k != f ==> !#[trigger] headers_valid(names[k], strings_view(headers@), 128, mode)),
            count >= 2 ==> exists|a: int, b: int|
                0 <= a < b < i && headers_valid(names[a], strings_view(headers@), 128, mode)
                    && headers_valid(names[b], strings_view(headers@), 128, mode),
        decreases tables@.len() - i,
    {
        assert(names[i as int] == tables@[i as int]@);
        assert(names.contains(tables@[i as int]@));
        if validate_headers(tables[i], headers, &limits, mode).is_ok() {
            proof {
                if count == 1 {
                    let f = found.unwrap();
                    assert(headers_valid(names[f as int], strings_view(headers@), 128, mode));
                }
            }
            if count == 0 {
                found = Some(i);
            }
            count = count + 1;
            let ghost before = strs_view(candidates@);
            candidates.push(tables[i]);
            assert(strs_view(candidates@) =~= before.push(tables@[i as int]@));
        }
        i = i + 1;
    }
    let ghost vt = strs_view(candidates@);
    assert(vt == valid_tables(strings_view(headers@), mode, names.len() as int));
    if count == 1 {
        match found {
            Some(f) => {
                assert(names[f as int] == tables@[f as int]@);
                assert(only_valid_table(strings_view(headers@), mode, f as int));
                Ok(tables[f])
            },
            None => Err(InstitutionError::InvalidInput("CSV columns do not match a supported dataset".to_owned())),
        }
    } else {
        proof {
            if exists|x: int| only_valid_table(strings_view(headers@), mode, x) {
                let x = choose|x: int| only_valid_table(strings_view(headers@), mode, x);
                if count >= 2 {
                    let (a, b) = choose|a: int, b: int|
                        0 <= a < b < names.len() && headers_valid(names[a], strings_view(headers@), 128, mode)
                            && headers_valid(names[b], strings_view(headers@), 128, mode);
                    assert(a == x || !headers_valid(names[a], strings_view(headers@), 128, mode));
                }
            }
        }
        if count == 0 {
            Err(InstitutionError::InvalidInput(
                "CSV columns do not match a supported dataset; check the header row".to_owned(),
            ))
        } else {
            let mut listed = String::new();
            let mut j: usize = 0;
            assert(vt.take(0) =~= Seq::<Seq<char>>::empty());
            while j < candidates.len()
                invariant
                    vt == strs_view(candidates@),
                    j <= candidates@.len(),
                    listed@ == joined(vt.take(j as int), ", "@),
                decreases candidates@.len() - j,
            {
                proof {
                    assert(vt[j as int] == candidates@[j as int]@);
                    assert(vt.take(j + 1).drop_last() =~= vt.take(j as int));
                }
                if j == 0 {
                    listed = candidates[j].to_owned();
                    assert(vt.take(1) =~= seq![vt[0]]);
                } else {
                    let with_sep = concat_str(listed.as_str(), ", ");
                    listed = concat_str(with_sep.as_str(), candidates[j]);
                }
                j = j + 1;
            }
            assert(vt.take(candidates@.len() as int) =~= vt);
            Err(InstitutionError::InvalidInput(concat_str("What data is this? Matching datasets: ", listed.as_str())))
        }
    }
}

proof fn lemma_infers_unique(name: Seq<char>, a: Option<Seq<char>>, b: Option<Seq<char>>)
    requires
        infers_table(name, a),
        infers_table(name, b),
    ensures
        a == b,
{
    let stem = normalized_stem(name);
    let tables = institution_table_names();
    if !tables.contains(stem) && exists|i: int| 0 <= i < tables.len() && #[trigger] mentions_table(stem, tables[i]) {
        let i1 = choose|i: int|
            0 <= i < tables.len() && a == Some(tables[i]) && mentions_table(stem, tables[i]) && (
            forall|j: int|
                0 <= j < tables.len() && #[trigger] mentions_table(stem, tables[j]) ==> tables[j].len()
                    <= tables[i].len()) && (forall|j: int|
                i < j < tables.len() && #[trigger] mentions_table(stem, tables[j]) ==> tables[j].len()
                    < tables[i].len());
        let i2 = choose|i: int|
            0 <= i < tables.len() && b == Some(tables[i]) && mentions_table(stem, tables[i]) && (
            forall|j: int|
                0 <= j < tables.len() && #[trigger] mentions_table(stem, tables[j]) ==> tables[j].len()
                    <= tables[i].len()) && (forall|j: int|
                i < j < tables.len() && #[trigger] mentions_table(stem, tables[j]) ==> tables[j].len()
                    < tables[i].len());
        assert(mentions_table(stem, tables[i1]));
        assert(mentions_table(stem, tables[i2]));
    }
}

/// The dataset a file name names, as `infer_csv_table` finds it.
pub open spec fn inferred_table(name: Seq<char>) -> Option<Seq<char>> {
    choose|t: Option<Seq<char>>| infers_table(name, t)
}

/// The dataset of a CSV upload: the requested or file-name dataset when that is a known
/// dataset, else the only dataset its header row fits; `None` when neither applies.
pub open spec fn csv_table(
    filename: Seq<char>,
    target: Option<Seq<char>>,
    headers: Seq<Seq<char>>,
    mode: ImportMode,
) -> Option<Seq<char>> {
    let named = match target {
        Some(t) => Some(t),
        None => inferred_table(filename),
    };
    match named {
        Some(t) => if institution_table_names().contains(t) {
            Some(t)
        } else {
            None
        },
        None => if exists|i: int| only_valid_table(headers, mode, i) {
            Some(institution_table_names()[choose|i: int| only_valid_table(headers, mode, i)])
        } else {
            None
        },
    }
}

/// Whether some record stops the parse: beyond the row limit, malformed, with a cell over
/// the character limit, or numbered beyond `i64`.
pub open spec fn csv_rows_fail(
    headers: Seq<Seq<char>>,
    records: Seq<Option<Seq<Seq<char>>>>,
    limits: ImportLimits,
) -> bool {
    exists|i: int|
        0 <= i < records.len() && (i >= limits.max_rows_per_sheet || #[trigger] records[i] is None || cell_overflow_of(
            headers,
            records[i],
            limits,
        ) || i + 2 > i64::MAX)
}

/// Whether a read record has a cell over the character limit.
pub open spec fn cell_overflow_of(
    headers: Seq<Seq<char>>,
    record: Option<Seq<Seq<char>>>,
    limits: ImportLimits,
) -> bool {
    match record {
        Some(r) => crate::import_rows::cell_overflow(headers, r, limits.max_cell_characters as nat),
        None => false,
    }
}

/// The outcome of parsing a CSV upload whose header row and records were read.
pub open spec fn csv_outcome_ok(
    filename: Seq<char>,
    target: Option<Seq<char>>,
    header: Option<Seq<Seq<char>>>,
    records: Seq<Option<Seq<Seq<char>>>>,
    limits: ImportLimits,
    mode: ImportMode,
) -> Option<Seq<char>> {
    match header {
        None => None,
        Some(h) => match csv_table(filename, target, h, mode) {
            None => None,
            Some(t) => if !headers_valid(t, h, limits.max_columns as nat, mode) || csv_rows_fail(h, records, limits) {
                None
            } else {
                Some(t)
            },
        },
    }
}

/// Views of read records.
pub open spec fn record_views(r: Seq<Result<Vec<String>, String>>) -> Seq<Option<Seq<Seq<char>>>> {
    r.map_values(|x: Result<Vec<String>, String>| match x {
        Ok(v) => Some(strings_view(v@)),
        Err(_) => None,
    })
}

/// The view of a read header row.
pub open spec fn header_view(h: Result<Vec<String>, String>) -> Option<Seq<Seq<char>>> {
    match h {
        Ok(v) => Some(strings_view(v@)),
        Err(_) => None,
    }
}

/// Validates the records of a CSV upload, given its read header row and records.
pub fn rows_from_csv(
    filename: &str,
    target: Option<&str>,
    header: &Result<Vec<String>, String>,
    records: &Vec<Result<Vec<String>, String>>,
    limits: &ImportLimits,
    mode: ImportMode,
    upload_index: usize,
) -> (r: Result<Vec<SourceRow>, InstitutionError>)
    ensures
        ({
            let t = match target {
                Some(t) => Some(t@),
                None => None,
            };
            match csv_outcome_ok(filename@, t, header_view(*header), record_views(records@), *limits, mode) {
                None => r is Err && r->Err_0 is InvalidInput,
                Some(table) => r matches Ok(rows) && rows@.len() == records@.len() && forall|i: int|
                    0 <= i < rows@.len() ==> crate::import_rows::row_matches(
                        #[trigger] rows@[i],
                        table,
                        (i + 2) as i64,
                        header_view(*header).unwrap(),
                        record_views(records@)[i].unwrap(),
                        None,
                        mode,
                        upload_index,
                    ),
            }
        }),
{
    let ghost tv = match target {
        Some(t) => Some(t@),
        None => None,
    };
    let headers = match header {
        Ok(h) => h,
        Err(e) => {
            return Err(InstitutionError::InvalidInput(concat_str("malformed CSV header: ", e.as_str())));
        },
    };
    let ghost hv = strings_view(headers@);
    let named: Option<&str> = match target {
        Some(t) => Some(t),
        None => infer_csv_table(filename),
    };
    proof {
        if target is None {
            let got = match named {
                Some(t) => Some(t@),
                None => None,
            };
            assert(infers_table(filename@, got));
            lemma_infers_unique(filename@, got, inferred_table(filename@));
        }
    }
    let table: &str = match named {
        Some(t) => {
            let tables = institution_tables();
            let mut known = false;
            let mut k: usize = 0;
            while k < tables.len()
                invariant
                    strs_view(tables@) == institution_table_names(),
                    k <= tables@.len(),
                    known == exists|j: int| 0 <= j < k && institution_table_names()[j] == t@,
                decreases tables@.len() - k,
            {
                assert(institution_table_names()[k as int] == tables@[k as int]@);
                if str_eq(tables[k], t) {
                    known = true;
                }
                k = k + 1;
            }
            if !known {
                return Err(InstitutionError::InvalidInput("unknown CSV target table".to_owned()));
            }
            t
        },
        None => match infer_csv_table_from_headers(headers, mode) {
            Ok(t) => {
                proof {
                    let i = choose|i: int| only_valid_table(hv, mode, i) && institution_table_names()[i] == t@;
                    let c = choose|i: int| only_valid_table(hv, mode, i);
                    assert(i == c);
                }
                t
            },
            Err(e) => { return Err(e); },
        },
    };
    assert(csv_table(filename@, tv, hv, mode) == Some(table@));
    assert(institution_table_names().contains(table@));
    match validate_headers(table, headers, limits, mode) {
        Err(e) => { return Err(e); },
        Ok(()) => {},
    }
    let ghost rv = record_views(records@);
    let mut rows: Vec<SourceRow> = Vec::new();
    let mut i: usize = 0;
    while i < records.len()
        invariant
            rv == record_views(records@),
            hv == strings_view(headers@),
            header_view(*header) == Some(hv),
            csv_table(filename@, tv, hv, mode) == Some(table@),
            headers_valid(table@, hv, limits.max_columns as nat, mode),
            tv == (match target {
                Some(t) => Some(t@),
                None => None::<Seq<char>>,
            }),
            institution_table_names().contains(table@),
            i <= records@.len(),
            rows@.len() == i,
            forall|k: int| 0 <= k < i ==> !(k >= limits.max_rows_per_sheet || #[trigger] rv[k] is None || cell_overflow_of(
                hv,
                rv[k],
                *limits,
            ) || k + 2 > i64::MAX),
            forall|k: int|
                0 <= k < i ==> crate::import_rows::row_matches(
                    #[trigger] rows@[k],
                    table@,
                    (k + 2) as i64,
                    hv,
                    rv[k].unwrap(),
                    None,
                    mode,
                    upload_index,
                ),
        decreases records@.len() - i,
    {
        if i >= limits.max_rows_per_sheet {
            return Err(InstitutionError::InvalidInput("CSV row limit exceeded".to_owned()));
        }
        let record = match &records[i] {
            Ok(r) => r,
            Err(e) => {
                assert(rv[i as int] is None);
                return Err(InstitutionError::InvalidInput(concat_str("malformed CSV row: ", e.as_str())));
            },
        };
        assert(rv[i as int] == Some(strings_view(record@)));
        let wide = i as u64;
        if wide > 0x7fff_ffff_ffff_fffdu64 {
            return Err(InstitutionError::InvalidInput("row number overflow".to_owned()));
        }
        let row_number = (wide + 2) as i64;
        match source_row(table, row_number, headers, record, None, limits, mode, upload_index) {
            Err(e) => {
                assert(cell_overflow_of(hv, rv[i as int], *limits));
                assert(csv_rows_fail(hv, rv, *limits));
                return Err(e);
            },
            Ok(row) => {
                rows.push(row);
            },
        }
        i = i + 1;
    }
    Ok(rows)
}

/// The header row a CSV reader reads from an upload, or `None` when it is malformed.
pub uninterp spec fn csv_header(bytes: Seq<u8>) -> Option<Seq<Seq<char>>>;

/// The records a CSV reader reads from an upload after its header row, each `None` when
/// it is malformed.
pub uninterp spec fn csv_records(bytes: Seq<u8>) -> Seq<Option<Seq<Seq<char>>>>;

/// Reads the header row of a CSV upload with `csv::Reader::headers` (strict record
/// lengths). The contract names the row the reader reads; the error text is not stated.
#[verifier::external_body]
fn read_csv_header(bytes: &[u8]) -> (r: Result<Vec<String>, String>)
    ensures
        header_view(r) == csv_header(bytes@),
{
    let mut reader = csv::ReaderBuilder::new().flexible(false).from_reader(bytes);
    match reader.headers() {
        Ok(record) => Ok(record.iter().map(str::to_owned).collect()),
        Err(error) => Err(error.to_string()),
    }
}

/// Reads the records of a CSV upload after its header row with `csv::Reader::records`
/// (strict record lengths). The contract names the records the reader reads; error texts
/// are not stated.
#[verifier::external_body]
fn read_csv_records(bytes: &[u8]) -> (r: Vec<Result<Vec<String>, String>>)
    ensures
        record_views(r@) == csv_records(bytes@),
{
    let mut reader = csv::ReaderBuilder::new().flexible(false).from_reader(bytes);
    reader
        .records()
        .map(|record| match record {
            Ok(record) => Ok(record.iter().map(str::to_owned).collect()),
            Err(error) => Err(error.to_string()),
        })
        .collect()
}

/// Parses a CSV upload: reads it, picks its dataset and validates each record as a row.
pub fn parse_csv(
    filename: &str,
    target: Option<&str>,
    bytes: &[u8],
    limits: &ImportLimits,
    mode: ImportMode,
    upload_index: usize,
) -> (r: Result<Vec<SourceRow>, InstitutionError>)
    ensures
        ({
            let t = match target {
                Some(t) => Some(t@),
                None => None,
            };
            match csv_outcome_ok(filename@, t, csv_header(bytes@), csv_records(bytes@), *limits, mode) {
                None => r is Err && r->Err_0 is InvalidInput,
                Some(table) => r matches Ok(rows) && rows@.len() == csv_records(bytes@).len() && forall|i: int|
                    0 <= i < rows@.len() ==> crate::import_rows::row_matches(
                        #[trigger] rows@[i],
                        table,
                        (i + 2) as i64,
                        csv_header(bytes@).unwrap(),
                        csv_records(bytes@)[i].unwrap(),
                        None,
                        mode,
                        upload_index,
                    ),
            }
        }),
{
    let header = read_csv_header(bytes);
    match &header {
        Err(e) => {
            return Err(InstitutionError::InvalidInput(concat_str("malformed CSV header: ", e.as_str())));
        },
        Ok(_) => {},
    }
    let records = read_csv_records(bytes);
    let r = rows_from_csv(filename, target, &header, &records, limits, mode, upload_index);
    proof {
        assert(header_view(header) == csv_header(bytes@));
        assert(record_views(records@) == csv_records(bytes@));
    }
    r
}

} // verus!
