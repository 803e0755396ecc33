//! A Typst document under construction, and the preface that goes in front
//! of it.

use vstd::prelude::*;
use crate::text::{push_signed_decimal, signed_decimal};

verus! {

/// The Typst source of a document.
#[derive(Debug)]
pub struct TypstContent {
    pub content: String,
}

/// An author of a document.
#[derive(Debug)]
pub struct Author {
    pub name: String,
    pub email: Option<String>,
    pub affiliation: Option<String>,
}

/// A calendar date.
#[derive(Clone, Copy, Debug, PartialEq, Eq, Structural)]
pub struct Date {
    pub year: i32,
    pub month: i32,
    pub day: i32,
}

/// The mathematical value of an [`Author`].
pub ghost struct AuthorView {
    pub name: Seq<char>,
    pub email: Option<Seq<char>>,
    pub affiliation: Option<Seq<char>>,
}

/// The characters of an optional string.
pub open spec fn optional_text(s: Option<String>) -> Option<Seq<char>> {
    match s {
        Some(s) => Some(s@),
        None => None,
    }
}

impl View for Author {
    type V = AuthorView;

    open spec fn view(&self) -> AuthorView {
        AuthorView {
            name: self.name@,
            email: optional_text(self.email),
            affiliation: optional_text(self.affiliation),
        }
    }
}

/// The values of a list of authors.
pub open spec fn authors_view(authors: Seq<Author>) -> Seq<AuthorView> {
    Seq::new(authors.len(), |i: int| authors[i]@)
}

/// The entry of one author in the preface.
pub open spec fn author_text(author: AuthorView) -> Seq<char> {
    "(name: \""@ + author.name + "\", "@ + (match author.email {
        Some(email) => "email: \""@ + email + "\", "@,
        None => "email: none, "@,
    }) + (match author.affiliation {
        Some(affiliation) => "affiliation: \""@ + affiliation + "\""@,
        None => "affiliation: none"@,
    }) + "), "@
}

/// The entries of the first `n` authors, one after the other.
pub open spec fn authors_text(authors: Seq<AuthorView>, n: nat) -> Seq<char>
    decreases n,
{
    if n == 0 || n > authors.len() {
        Seq::empty()
    } else {
        authors_text(authors, (n - 1) as nat) + author_text(authors[n - 1])
    }
}

/// The date of the preface: the given one, or a call for today's.
pub open spec fn date_text(date: Option<Date>) -> Seq<char> {
    match date {
        Some(date) => "date: datetime(year: "@ + signed_decimal(date.year as int) + ", month: "@
            + signed_decimal(date.month as int) + ", day: "@ + signed_decimal(date.day as int)
            + ")"@,
        None => "date: datetime.today()"@,
    }
}

/// The preface of a document: the import of the template, and the call of
/// its `project` function with title, authors and date.
pub open spec fn preface_text(
    title: Seq<char>,
    authors: Seq<AuthorView>,
    date: Option<Date>,
) -> Seq<char> {
    "#import \"template.typ\": *"@ + "\n\n"@ + "#show: project.with(\n"@ + "  title: \""@ + title
        + "\",\n"@ + "authors: ("@ + authors_text(authors, authors.len()) + "),\n"@ + date_text(
        date,
    ) + ".display(\"[year]年[month padding:space]月[day padding:space]日\"),\n"@ + ")\n\n"@
}

/// Appends the entry of one author to `out`.
pub fn push_author(out: &mut String, author: &Author)
    ensures
        final(out)@ == old(out)@ + author_text(author@),
{
    out.append("(name: \"");
    out.append(author.name.as_str());
    out.append("\", ");
    let ghost named = out@;
    match &author.email {
        Some(email) => {
            out.append("email: \"");
            out.append(email.as_str());
            out.append("\", ");
            assert(out@ =~= named + ("email: \""@ + email@ + "\", "@));
        },
        None => {
            out.append("email: none, ");
        },
    }
    let ghost mailed = out@;
    match &author.affiliation {
        Some(affiliation) => {
            out.append("affiliation: \"");
            out.append(affiliation.as_str());
            out.append("\"");
            assert(out@ =~= mailed + ("affiliation: \""@ + affiliation@ + "\""@));
        },
        None => {
            out.append("affiliation: none");
        },
    }
    out.append("), ");
    assert(out@ =~= old(out)@ + author_text(author@));
}

/// Appends the date of the preface to `out`.
pub fn push_date(out: &mut String, date: Option<&Date>)
    ensures
        final(out)@ == old(out)@ + date_text(
            match date {
                Some(d) => Some(*d),
                None => None,
            },
        ),
{
    match date {
        Some(date) => {
            out.append("date: datetime(year: ");
            push_signed_decimal(out, date.year);
            out.append(", month: ");
            push_signed_decimal(out, date.month);
            out.append(", day: ");
            push_signed_decimal(out, date.day);
            out.append(")");
            assert(out@ =~= old(out)@ + date_text(Some(*date)));
        },
        None => {
            out.append("date: datetime.today()");
        },
    }
}

impl TypstContent {
    /// Puts the preface in front of the content.
    pub fn add_preface(&mut self, title: &str, authors: &Vec<Author>, date: Option<&Date>)
        ensures
            final(self).content@ == preface_text(
                title@,
                authors_view(authors@),
                match date {
                    Some(d) => Some(*d),
                    None => None,
                },
            ) + old(self).content@,
    {
        let ghost people = authors_view(authors@);
        let ghost day = match date {
            Some(d) => Some(*d),
            None => None,
        };
        let mut preface = String::new();
        preface.append("#import \"template.typ\": *");
        preface.append("\n\n");
        preface.append("#show: project.with(\n");
        preface.append("  title: \"");
        preface.append(title);
        preface.append("\",\n");
        preface.append("authors: (");
        let ghost head = preface@;
        assert(head =~= "#import \"template.typ\": *"@ + "\n\n"@ + "#show: project.with(\n"@
            + "  title: \""@ + title@ + "\",\n"@ + "authors: ("@);
        let mut i: usize = 0;
        assert(preface@ =~= head + authors_text(people, 0));
        while i < authors.len()
            invariant
                i <= authors.len(),
                people == authors_view(authors@),
                preface@ == head + authors_text(people, i as nat),
            decreases authors.len() - i,
        {
            push_author(&mut preface, &authors[i]);
            i += 1;
            assert(preface@ =~= head + authors_text(people, i as nat));
        }
        preface.append("),\n");
        push_date(&mut preface, date);
        preface.append(".display(\"[year]年[month padding:space]月[day padding:space]日\"),\n");
        preface.append(")\n\n");
        assert(preface@ =~= preface_text(title@, people, day));
        preface.append(self.content.as_str());
        self.content = preface;
    }
}

} // verus!
