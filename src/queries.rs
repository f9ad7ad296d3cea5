//! The SQL statements that listing and editing snippets run, built from the
//! caller's filter or changes. Values are never spliced into the text: each
//! `?` takes the next entry of `params`.

use vstd::prelude::*;

use crate::models::{SnippetFilter, UpdateSettingsInput, UpdateSnippetInput};
use crate::tags::strings_view;
use crate::text::{append_decimal, decimal};

verus! {

/// A statement and the text values for its placeholders, in order.
#[derive(Clone, Debug)]
pub struct SnippetQuery {
    pub sql: String,
    pub params: Vec<String>,
}

/// An optional switch that is on only when given as `true`.
pub open spec fn flag(o: Option<bool>) -> bool {
    o == Some(true)
}

fn flag_on(o: Option<bool>) -> (r: bool)
    ensures
        r == flag(o),
{
    match o {
        Some(b) => b,
        None => false,
    }
}

pub open spec fn like_pattern(s: Seq<char>) -> Seq<char> {
    "%"@ + s + "%"@
}

pub open spec fn list_sql(f: SnippetFilter) -> Seq<char> {
    "SELECT id, title, problem, code_language, SUBSTR(code, 1, 200), created_at, is_favorite, is_deleted, deleted_at, last_accessed_at FROM snippets WHERE 1=1"@
        + (if f.language is Some { " AND LOWER(code_language) = LOWER(?)"@ } else { Seq::empty() })
        + (if f.search is Some { " AND (title LIKE ? OR problem LIKE ?)"@ } else { Seq::empty() })
        + (if flag(f.trash_only) {
            " AND is_deleted = 1"@
        } else {
            (if !flag(f.include_deleted) { " AND is_deleted = 0"@ } else { Seq::empty() })
                + (if flag(f.favorites_only) { " AND is_favorite = 1"@ } else { Seq::empty() })
        })
        + (if flag(f.recent_first) { " ORDER BY last_accessed_at DESC"@ } else { " ORDER BY created_at DESC"@ })
}

pub open spec fn list_params(f: SnippetFilter) -> Seq<Seq<char>> {
    (match f.language {
        Some(l) => seq![l@],
        None => Seq::empty(),
    }) + (match f.search {
        Some(s) => seq![like_pattern(s@), like_pattern(s@)],
        None => Seq::empty(),
    })
}

/// The statement that lists snippets through a filter. The trash view shows
/// deleted snippets only; otherwise deleted ones are left out unless asked
/// for, and favourites can be asked for alone. The language matches without
/// regard to case; the search text matches anywhere in the title or the
/// problem. Most recently accessed first when asked, else newest first.
pub fn list_query(filter: &SnippetFilter) -> (r: SnippetQuery)
    ensures
        r.sql@ == list_sql(*filter),
        strings_view(r.params@) == list_params(*filter),
{
    let mut sql = String::from_str(
        "SELECT id, title, problem, code_language, SUBSTR(code, 1, 200), created_at, is_favorite, is_deleted, deleted_at, last_accessed_at FROM snippets WHERE 1=1",
    );
    let mut params: Vec<String> = Vec::new();
    if let Some(lang) = &filter.language {
        sql.append(" AND LOWER(code_language) = LOWER(?)");
        params.push(lang.clone());
    }
    let ghost after_lang = params@;
    if let Some(search) = &filter.search {
        sql.append(" AND (title LIKE ? OR problem LIKE ?)");
        let mut pattern = String::from_str("%");
        pattern.append(search.as_str());
        pattern.append("%");
        params.push(pattern.clone());
        params.push(pattern);
    }
    if flag_on(filter.trash_only) {
        sql.append(" AND is_deleted = 1");
    } else {
        if !flag_on(filter.include_deleted) {
            sql.append(" AND is_deleted = 0");
        }
        if flag_on(filter.favorites_only) {
            sql.append(" AND is_favorite = 1");
        }
    }
    if flag_on(filter.recent_first) {
        sql.append(" ORDER BY last_accessed_at DESC");
    } else {
        sql.append(" ORDER BY created_at DESC");
    }
    proof {
        assert(sql@ =~= list_sql(*filter));
        assert(strings_view(params@) =~= list_params(*filter));
    }
    SnippetQuery { sql, params }
}

/// The assignment of one column when its new value is given.
pub open spec fn assignment(value: Option<String>, column: Seq<char>) -> Seq<char> {
    if value is Some {
        column + " = ?, "@
    } else {
        Seq::empty()
    }
}

pub open spec fn value_param(value: Option<String>) -> Seq<Seq<char>> {
    match value {
        Some(v) => seq![v@],
        None => Seq::empty(),
    }
}

/// Whether an update changes any column of the snippet itself (tags are
/// kept elsewhere).
pub open spec fn changes_columns(i: UpdateSnippetInput) -> bool {
    i.title is Some || i.problem is Some || i.solution is Some || i.code is Some || i.code_language is Some
        || i.reference_url is Some
}

pub open spec fn update_sql(i: UpdateSnippetInput) -> Seq<char> {
    "UPDATE snippets SET "@ + assignment(i.title, "title"@) + assignment(i.problem, "problem"@)
        + assignment(i.solution, "solution"@) + assignment(i.code, "code"@)
        + assignment(i.code_language, "code_language"@) + assignment(i.reference_url, "reference_url"@)
        + "updated_at = CURRENT_TIMESTAMP WHERE id = ?"@
}

pub open spec fn update_params(id: Seq<char>, i: UpdateSnippetInput) -> Seq<Seq<char>> {
    value_param(i.title) + value_param(i.problem) + value_param(i.solution) + value_param(i.code)
        + value_param(i.code_language) + value_param(i.reference_url) + seq![id]
}

fn add_assignment(sql: &mut String, params: &mut Vec<String>, value: &Option<String>, column: &str)
    ensures
        final(sql)@ == old(sql)@ + assignment(*value, column@),
        strings_view(final(params)@) == strings_view(old(params)@) + value_param(*value),
{
    if let Some(v) = value {
        sql.append(column);
        sql.append(" = ?, ");
        params.push(v.clone());
        proof {
            assert(final(sql)@ =~= old(sql)@ + assignment(*value, column@));
        }
    }
    proof {
        assert(strings_view(final(params)@) =~= strings_view(old(params)@) + value_param(*value));
    }
}

/// The statement that writes an update of a snippet's own columns, stamping
/// the time of the change; `None` when the update sets none of them.
pub fn update_snippet_query(id: &str, input: &UpdateSnippetInput) -> (r: Option<SnippetQuery>)
    ensures
        !changes_columns(*input) ==> r is None,
        changes_columns(*input) ==> (r matches Some(q) && q.sql@ == update_sql(*input)
            && strings_view(q.params@) == update_params(id@, *input)),
{
    if !(input.title.is_some() || input.problem.is_some() || input.solution.is_some() || input.code.is_some()
        || input.code_language.is_some() || input.reference_url.is_some()) {
        return None;
    }
    let mut sql = String::from_str("UPDATE snippets SET ");
    let mut params: Vec<String> = Vec::new();
    proof {
        assert(strings_view(params@) =~= Seq::empty());
    }
    add_assignment(&mut sql, &mut params, &input.title, "title");
    add_assignment(&mut sql, &mut params, &input.problem, "problem");
    add_assignment(&mut sql, &mut params, &input.solution, "solution");
    add_assignment(&mut sql, &mut params, &input.code, "code");
    add_assignment(&mut sql, &mut params, &input.code_language, "code_language");
    add_assignment(&mut sql, &mut params, &input.reference_url, "reference_url");
    sql.append("updated_at = CURRENT_TIMESTAMP WHERE id = ?");
    let ghost before = params@;
    params.push(String::from_str(id));
    proof {
        assert(strings_view(params@) =~= strings_view(before) + seq![id@]);
        assert(sql@ =~= update_sql(*input));
        assert(strings_view(params@) =~= update_params(id@, *input));
    }
    Some(SnippetQuery { sql, params })
}

/// A value bound to a placeholder of a settings statement.
#[derive(Clone, Debug)]
pub enum SettingValue {
    Text(String),
    Integer(i32),
}

/// A settings statement and the values for its numbered placeholders.
#[derive(Clone, Debug)]
pub struct SettingsQuery {
    pub sql: String,
    pub params: Vec<SettingValue>,
}

pub open spec fn column_if(set: bool, column: Seq<char>) -> Seq<Seq<char>> {
    if set { seq![column] } else { Seq::empty() }
}

pub open spec fn value_if(v: Option<SettingValue>) -> Seq<SettingValue> {
    match v {
        Some(x) => seq![x],
        None => Seq::empty(),
    }
}

pub open spec fn text_setting_spec(o: Option<String>) -> Option<SettingValue> {
    match o {
        Some(v) => Some(SettingValue::Text(v)),
        None => None,
    }
}

pub open spec fn int_setting_spec(o: Option<i32>) -> Option<SettingValue> {
    match o {
        Some(v) => Some(SettingValue::Integer(v)),
        None => None,
    }
}

/// The columns an update of the settings sets, in statement order.
pub open spec fn settings_columns(i: UpdateSettingsInput) -> Seq<Seq<char>> {
    column_if(i.theme is Some, "theme"@) + column_if(i.ollama_base_url is Some, "ollama_base_url"@)
        + column_if(i.llm_model is Some, "llm_model"@) + column_if(i.embedding_model is Some, "embedding_model"@)
        + column_if(i.search_limit is Some, "search_limit"@) + column_if(i.data_path is Some, "data_path"@)
}

/// The values of an update of the settings, in statement order.
pub open spec fn settings_values(i: UpdateSettingsInput) -> Seq<SettingValue> {
    value_if(text_setting_spec(i.theme)) + value_if(text_setting_spec(i.ollama_base_url))
        + value_if(text_setting_spec(i.llm_model)) + value_if(text_setting_spec(i.embedding_model))
        + value_if(int_setting_spec(i.search_limit)) + value_if(text_setting_spec(i.data_path))
}

/// `column = ?n` for each column, numbered from 1, separated by commas.
pub open spec fn numbered(cols: Seq<Seq<char>>) -> Seq<char>
    decreases cols.len(),
{
    if cols.len() == 0 {
        Seq::empty()
    } else if cols.len() == 1 {
        cols[0] + " = ?1"@
    } else {
        numbered(cols.drop_last()) + ", "@ + cols.last() + " = ?"@ + decimal(cols.len() as int)
    }
}

fn text_setting(o: &Option<String>) -> (r: Option<SettingValue>)
    ensures
        r == text_setting_spec(*o),
{
    match o {
        Some(v) => Some(SettingValue::Text(v.clone())),
        None => None,
    }
}

fn int_setting(o: Option<i32>) -> (r: Option<SettingValue>)
    ensures
        r == int_setting_spec(o),
{
    match o {
        Some(v) => Some(SettingValue::Integer(v)),
        None => None,
    }
}

/// Appends the assignment of `column` when `value` is given.
fn add_setting(
    sets: &mut String,
    params: &mut Vec<SettingValue>,
    cols: Ghost<Seq<Seq<char>>>,
    value: Option<SettingValue>,
    column: &str,
)
    requires
        old(params)@.len() == cols@.len(),
        cols@.len() < 6,
        old(sets)@ == numbered(cols@),
    ensures
        final(sets)@ == numbered(cols@ + column_if(value is Some, column@)),
        final(params)@ == old(params)@ + value_if(value),
{
    let count = params.len();
    match value {
        Some(v) => {
            proof {
                reveal_strlit(" = ?1");
                reveal_strlit(" = ?");
            }
            if count > 0 {
                sets.append(", ");
            }
            sets.append(column);
            sets.append(" = ?");
            append_decimal(sets, (count + 1) as i64);
            params.push(v);
            proof {
                let c = cols@ + column_if(true, column@);
                assert(c =~= cols@.push(column@));
                assert(c.drop_last() =~= cols@);
                if count == 0 {
                    assert(decimal(1) =~= seq!['1']);
                }
                assert(final(sets)@ =~= numbered(c));
                assert(final(params)@ =~= old(params)@ + value_if(value));
            }
        },
        None => {
            proof {
                assert(cols@ + column_if(false, column@) =~= cols@);
                assert(old(params)@ + value_if(value) =~= old(params)@);
            }
        },
    }
}

/// The statement that writes an update of the settings, with numbered
/// placeholders in the order theme, service address, generation model,
/// embedding model, search limit, data path; `None` when the update sets
/// nothing.
pub fn update_settings_query(input: &UpdateSettingsInput) -> (r: Option<SettingsQuery>)
    ensures
        settings_columns(*input).len() == 0 ==> r is None,
        settings_columns(*input).len() > 0 ==> (r matches Some(q)
            && q.sql@ == "UPDATE settings SET "@ + numbered(settings_columns(*input)) + " WHERE id = 1"@
            && q.params@ == settings_values(*input)),
{
    let mut sets = String::new();
    let mut params: Vec<SettingValue> = Vec::new();
    let ghost c0: Seq<Seq<char>> = Seq::empty();
    let ghost c1 = c0 + column_if(input.theme is Some, "theme"@);
    let ghost c2 = c1 + column_if(input.ollama_base_url is Some, "ollama_base_url"@);
    let ghost c3 = c2 + column_if(input.llm_model is Some, "llm_model"@);
    let ghost c4 = c3 + column_if(input.embedding_model is Some, "embedding_model"@);
    let ghost c5 = c4 + column_if(input.search_limit is Some, "search_limit"@);
    let ghost c6 = c5 + column_if(input.data_path is Some, "data_path"@);
    let ghost v0: Seq<SettingValue> = Seq::empty();
    proof {
        assert(params@ =~= v0);
    }
    add_setting(&mut sets, &mut params, Ghost(c0), text_setting(&input.theme), "theme");
    add_setting(&mut sets, &mut params, Ghost(c1), text_setting(&input.ollama_base_url), "ollama_base_url");
    add_setting(&mut sets, &mut params, Ghost(c2), text_setting(&input.llm_model), "llm_model");
    add_setting(&mut sets, &mut params, Ghost(c3), text_setting(&input.embedding_model), "embedding_model");
    add_setting(&mut sets, &mut params, Ghost(c4), int_setting(input.search_limit), "search_limit");
    add_setting(&mut sets, &mut params, Ghost(c5), text_setting(&input.data_path), "data_path");
    proof {
        assert(c6 =~= settings_columns(*input));
        assert(params@ =~= settings_values(*input));
    }
    if params.len() == 0 {
        return None;
    }
    let mut sql = String::from_str("UPDATE settings SET ");
    sql.append(sets.as_str());
    sql.append(" WHERE id = 1");
    Some(SettingsQuery { sql, params })
}

} // verus!
