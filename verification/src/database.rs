//! What is asked of the catalogue's database, and how its rows are read.

use crate::data::{Camouflage, CamouflageView};
use crate::text::{pieces, split_on};
use vstd::prelude::*;

verus! {

/// The columns of one row of the table of camouflages, as they are stored.
#[derive(Debug)]
pub struct CamouflageRow {
    pub vehicle_name: String,
    pub description: String,
    /// The image URLs, separated by commas.
    pub image_urls: Option<String>,
    pub zip_file_url: String,
    /// The hashtags, separated by commas.
    pub hashtags: Option<String>,
    pub file_size: String,
    pub num_downloads: usize,
    pub num_likes: usize,
    pub post_date: String,
    pub nickname: String,
}

/// The text of a column that may be missing: nothing where it is.
pub open spec fn column_text(column: Option<String>) -> Seq<char> {
    match column {
        Some(text) => text@,
        None => Seq::<char>::empty(),
    }
}

/// Those of `list` that are not empty, in their order.
pub open spec fn non_empty(list: Seq<Seq<char>>) -> Seq<Seq<char>> {
    list.filter(|s: Seq<char>| s.len() > 0)
}

/// The image URLs of a row: the pieces of the column between commas. A
/// missing or empty column gives one empty URL.
pub fn parse_image_urls(column: &Option<String>) -> (urls: Vec<String>)
    ensures
        urls.deep_view() == pieces(column_text(*column), ','),
{
    match column {
        Some(text) => split_on(text.as_str(), ','),
        None => split_on(String::new().as_str(), ','),
    }
}

/// The hashtags of a row: the pieces of the column between commas that are
/// not empty.
pub fn parse_hashtags(column: &Option<String>) -> (hashtags: Vec<String>)
    ensures
        hashtags.deep_view() == non_empty(pieces(column_text(*column), ',')),
{
    let all = parse_image_urls(column);
    let ghost list = all.deep_view();
    let mut hashtags: Vec<String> = Vec::new();
    let mut i: usize = 0;
    proof {
        reveal(Seq::filter);
        assert(list.take(0) =~= Seq::<Seq<char>>::empty());
    }
    while i < all.len()
        invariant
            i <= all.len(),
            list == all.deep_view(),
            hashtags.deep_view() == non_empty(list.take(i as int)),
        decreases all.len() - i,
    {
        proof {
            reveal(Seq::filter);
            assert(list.take(i + 1).drop_last() =~= list.take(i as int));
            assert(list.take(i + 1).last() == all[i as int]@);
        }
        if !all[i].as_str().is_empty() {
            let ghost before = hashtags.deep_view();
            hashtags.push(all[i].clone());
            assert(hashtags.deep_view() =~= before.push(all[i as int]@));
        }
        i += 1;
    }
    assert(list.take(all.len() as int) =~= list);
    hashtags
}

/// The camouflage that a row and its tags stand for.
pub fn camouflage_from_row(row: CamouflageRow, tags: Vec<String>) -> (camo: Camouflage)
    ensures
        camo@ == (CamouflageView {
            nickname: row.nickname@,
            vehicle_name: row.vehicle_name@,
            description: row.description@,
            file_size: row.file_size@,
            post_date: row.post_date@,
            hashtags: non_empty(pieces(column_text(row.hashtags), ',')),
            tags: tags.deep_view(),
            num_downloads: row.num_downloads as nat,
            num_likes: row.num_likes as nat,
            zip_file_url: row.zip_file_url@,
            image_urls: pieces(column_text(row.image_urls), ','),
        }),
{
    let image_urls = parse_image_urls(&row.image_urls);
    let hashtags = parse_hashtags(&row.hashtags);
    Camouflage {
        nickname: row.nickname,
        vehicle_name: row.vehicle_name,
        description: row.description,
        file_size: row.file_size,
        post_date: row.post_date,
        hashtags,
        tags,
        num_downloads: row.num_downloads,
        num_likes: row.num_likes,
        zip_file_url: row.zip_file_url,
        image_urls,
    }
}

/// A statement for the database with the values of its parameters, in the
/// order of its question marks.
#[derive(Debug)]
pub struct Statement {
    pub sql: String,
    pub params: Vec<String>,
}

/// `count` question marks with commas between them.
pub open spec fn placeholders(count: nat) -> Seq<char>
    decreases count,
{
    if count == 0 {
        Seq::<char>::empty()
    } else if count == 1 {
        "?"@
    } else {
        placeholders((count - 1) as nat) + ",?"@
    }
}

/// The text of the statement that selects camouflages: all of them, or, with
/// tags, those that carry one of the tags, and, with a search text, those
/// whose vehicle name or description holds it.
pub open spec fn selection_sql(with_text: bool, tag_count: nat) -> Seq<char> {
    let select =
        "SELECT DISTINCT c.rowid, c.vehicle_name, c.description, c.image_urls, c.zip_file_url, c.hashtags, c.file_size, c.num_downloads, c.num_likes, c.post_date, c.nickname
        FROM camouflages c"@;
    let from = if tag_count > 0 {
        select
            + "
        JOIN camouflage_tags ct ON c.rowid = ct.camouflage_id
        JOIN tags t ON ct.tag_id = t.id"@
    } else {
        select
    };
    let by_tag = "t.name IN ("@ + placeholders(tag_count) + ")"@;
    let by_text = "(c.vehicle_name LIKE ? OR c.description LIKE ?)"@;
    if tag_count > 0 && with_text {
        from + " WHERE "@ + by_tag + " AND "@ + by_text
    } else if tag_count > 0 {
        from + " WHERE "@ + by_tag
    } else if with_text {
        from + " WHERE "@ + by_text
    } else {
        from
    }
}

/// The pattern that matches every text that holds `text`.
pub open spec fn like_pattern(text: Seq<char>) -> Seq<char> {
    "%"@ + text + "%"@
}

/// The parameters of the statement that selects camouflages: the tags, then
/// the pattern for the search text, once for each of the two columns.
pub open spec fn selection_params(query: Option<Seq<char>>, tags: Seq<Seq<char>>) -> Seq<
    Seq<char>,
> {
    match query {
        Some(text) => tags + seq![like_pattern(text), like_pattern(text)],
        None => tags,
    }
}

/// `count` question marks with commas between them.
fn question_marks(count: usize) -> (marks: String)
    ensures
        marks@ == placeholders(count as nat),
{
    let mut marks = String::new();
    let mut i: usize = 0;
    while i < count
        invariant
            i <= count,
            marks@ == placeholders(i as nat),
        decreases count - i,
    {
        if i == 0 {
            marks.append("?");
            assert(marks@ =~= "?"@);
        } else {
            marks.append(",?");
        }
        i += 1;
    }
    marks
}

/// The statement that selects the camouflages for a search text and a list
/// of tags, either of which may be missing.
pub fn selection_statement(query: Option<&str>, selected_tags: &Vec<String>) -> (statement:
    Statement)
    ensures
        statement.sql@ == selection_sql(query is Some, selected_tags.len() as nat),
        statement.params.deep_view() == selection_params(
            match query {
                Some(text) => Some(text@),
                None => None,
            },
            selected_tags.deep_view(),
        ),
{
    let mut sql = String::from_str(
        "SELECT DISTINCT c.rowid, c.vehicle_name, c.description, c.image_urls, c.zip_file_url, c.hashtags, c.file_size, c.num_downloads, c.num_likes, c.post_date, c.nickname
        FROM camouflages c",
    );
    let mut params: Vec<String> = Vec::new();
    let tagged = selected_tags.len() > 0;
    if tagged {
        sql.append(
            "
        JOIN camouflage_tags ct ON c.rowid = ct.camouflage_id
        JOIN tags t ON ct.tag_id = t.id",
        );
        sql.append(" WHERE ");
        sql.append("t.name IN (");
        let marks = question_marks(selected_tags.len());
        sql.append(marks.as_str());
        sql.append(")");
        let mut i: usize = 0;
        while i < selected_tags.len()
            invariant
                i <= selected_tags.len(),
                params.deep_view() == selected_tags.deep_view().take(i as int),
            decreases selected_tags.len() - i,
        {
            let ghost before = params.deep_view();
            params.push(selected_tags[i].clone());
            assert(params.deep_view() =~= before.push(selected_tags[i as int]@));
            assert(selected_tags.deep_view().take(i + 1) =~= before.push(selected_tags[i as int]@));
            i += 1;
        }
        assert(selected_tags.deep_view().take(selected_tags.len() as int)
            =~= selected_tags.deep_view());
    } else {
        assert(params.deep_view() =~= selected_tags.deep_view());
    }
    match query {
        Some(text) => {
            if tagged {
                sql.append(" AND ");
            } else {
                sql.append(" WHERE ");
            }
            sql.append("(c.vehicle_name LIKE ? OR c.description LIKE ?)");
            let pattern = String::from_str("%").concat(text).concat("%");
            let ghost before = params.deep_view();
            params.push(pattern.clone());
            params.push(pattern);
            assert(params.deep_view() =~= before + seq![like_pattern(text@), like_pattern(text@)]);
        },
        None => {},
    }
    assert(sql@ =~= selection_sql(query is Some, selected_tags.len() as nat));
    Statement { sql, params }
}

/// `count` conditions on the tag's name, with `OR` between them.
pub open spec fn tag_conditions(count: nat) -> Seq<char>
    decreases count,
{
    if count == 0 {
        Seq::<char>::empty()
    } else if count == 1 {
        "t.name = ?"@
    } else {
        tag_conditions((count - 1) as nat) + " OR t.name = ?"@
    }
}

/// The text of the statement that selects the camouflages that carry one of
/// `tag_count` tags and, with a search text, hold it in their vehicle name
/// or description.
pub open spec fn tag_filter_sql(with_text: bool, tag_count: nat) -> Seq<char> {
    let select =
        "SELECT DISTINCT c.rowid, c.vehicle_name, c.description, c.image_urls, c.zip_file_url, c.hashtags, c.file_size, c.num_downloads, c.num_likes, c.post_date, c.nickname
            FROM camouflages c
            JOIN camouflage_tags ct ON c.rowid = ct.camouflage_id
            JOIN tags t ON ct.tag_id = t.id
            WHERE "@;
    let by_tag = select + tag_conditions(tag_count);
    if with_text {
        by_tag + " AND (c.vehicle_name LIKE ? OR c.description LIKE ?)"@
    } else {
        by_tag
    }
}

/// The statement that selects the camouflages that carry one of the given
/// tags, narrowed by a search text if there is one. Its parameters are those
/// of `selection_params`.
pub fn tag_filter_statement(selected_tags: &Vec<String>, query: Option<&str>) -> (statement:
    Statement)
    ensures
        statement.sql@ == tag_filter_sql(query is Some, selected_tags.len() as nat),
        statement.params.deep_view() == selection_params(
            match query {
                Some(text) => Some(text@),
                None => None,
            },
            selected_tags.deep_view(),
        ),
{
    let mut sql = String::from_str(
        "SELECT DISTINCT c.rowid, c.vehicle_name, c.description, c.image_urls, c.zip_file_url, c.hashtags, c.file_size, c.num_downloads, c.num_likes, c.post_date, c.nickname
            FROM camouflages c
            JOIN camouflage_tags ct ON c.rowid = ct.camouflage_id
            JOIN tags t ON ct.tag_id = t.id
            WHERE ",
    );
    let ghost select = sql@;
    let mut params: Vec<String> = Vec::new();
    let mut i: usize = 0;
    assert(sql@ =~= select + tag_conditions(0));
    assert(params.deep_view() =~= selected_tags.deep_view().take(0));
    while i < selected_tags.len()
        invariant
            i <= selected_tags.len(),
            sql@ == select + tag_conditions(i as nat),
            params.deep_view() == selected_tags.deep_view().take(i as int),
        decreases selected_tags.len() - i,
    {
        if i == 0 {
            sql.append("t.name = ?");
        } else {
            sql.append(" OR t.name = ?");
        }
        assert(sql@ =~= select + tag_conditions((i + 1) as nat));
        let ghost before = params.deep_view();
        params.push(selected_tags[i].clone());
        assert(params.deep_view() =~= before.push(selected_tags[i as int]@));
        assert(selected_tags.deep_view().take(i + 1) =~= before.push(selected_tags[i as int]@));
        i += 1;
    }
    assert(selected_tags.deep_view().take(selected_tags.len() as int)
        =~= selected_tags.deep_view());
    match query {
        Some(text) => {
            sql.append(" AND (c.vehicle_name LIKE ? OR c.description LIKE ?)");
            let pattern = String::from_str("%").concat(text).concat("%");
            let ghost before = params.deep_view();
            params.push(pattern.clone());
            params.push(pattern);
            assert(params.deep_view() =~= before + seq![like_pattern(text@), like_pattern(text@)]);
        },
        None => {},
    }
    Statement { sql, params }
}

} // verus!
