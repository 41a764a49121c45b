//! Check jobs: the entries that the producer appends to the broker stream
//! and that workers read back.

use vstd::prelude::*;

verus! {

/// The fields of one stream entry, as ordered name/value pairs.
pub open spec fn fields_view(f: Seq<(String, String)>) -> Seq<(Seq<char>, Seq<char>)> {
    f.map_values(|p: (String, String)| (p.0@, p.1@))
}

/// Index of the first field called `name`.
pub open spec fn is_first_field(fs: Seq<(Seq<char>, Seq<char>)>, name: Seq<char>, i: int) -> bool {
    &&& 0 <= i < fs.len()
    &&& fs[i].0 == name
    &&& forall|j: int| 0 <= j < i ==> fs[j].0 != name
}

/// The value of the first field called `name`, if there is one.
pub open spec fn field_value(fs: Seq<(Seq<char>, Seq<char>)>, name: Seq<char>) -> Option<Seq<char>> {
    if exists|i: int| is_first_field(fs, name, i) {
        Some(fs[choose|i: int| is_first_field(fs, name, i)].1)
    } else {
        None
    }
}

/// A monitored site as the registry lists it.
pub struct WebsiteEvent {
    pub url: String,
    pub id: String,
    pub users_id: String,
    pub is_snipp_added: bool,
}

/// The fields that a job for a site with this target and identity carries.
pub open spec fn spec_job_fields(url: Seq<char>, id: Seq<char>) -> Seq<(Seq<char>, Seq<char>)> {
    seq![("url"@, url), ("id"@, id)]
}

/// What a worker needs from a job: the target to probe and the site it belongs to.
pub struct CheckJob {
    pub url: String,
    pub site_id: String,
}

/// Why a stream entry could not be read as a job.
#[derive(PartialEq, Eq, Structural, Clone, Copy, Debug)]
pub enum EntryError {
    MissingUrl,
    MissingId,
}

/// The job that a stream entry with these fields describes.
pub open spec fn spec_parse_job(fs: Seq<(Seq<char>, Seq<char>)>) -> Result<(Seq<char>, Seq<char>), EntryError> {
    match field_value(fs, "url"@) {
        None => Err(EntryError::MissingUrl),
        Some(url) => match field_value(fs, "id"@) {
            None => Err(EntryError::MissingId),
            Some(id) => Ok((url, id)),
        },
    }
}

/// The fields of the job that the producer appends for `site`.
pub fn job_fields(site: &WebsiteEvent) -> (r: Vec<(String, String)>)
    ensures
        fields_view(r@) == spec_job_fields(site.url@, site.id@),
{
    let mut r: Vec<(String, String)> = Vec::new();
    r.push(("url".to_owned(), site.url.clone()));
    r.push(("id".to_owned(), site.id.clone()));
    assert(fields_view(r@) =~= spec_job_fields(site.url@, site.id@));
    r
}

/// The value of the first field called `name`.
pub fn find_field(fields: &Vec<(String, String)>, name: &String) -> (r: Option<String>)
    ensures
        r matches Some(v) ==> field_value(fields_view(fields@), name@) == Some(v@),
        r is None ==> field_value(fields_view(fields@), name@) is None,
{
    let ghost fs = fields_view(fields@);
    let mut i: usize = 0;
    while i < fields.len()
        invariant
            fs == fields_view(fields@),
            i <= fields.len(),
            forall|j: int| 0 <= j < i ==> fs[j].0 != name@,
        decreases fields.len() - i,
    {
        if fields[i].0 == *name {
            assert(is_first_field(fs, name@, i as int));
            proof {
                let k = choose|k: int| is_first_field(fs, name@, k);
                assert(k == i);
            }
            return Some(fields[i].1.clone());
        }
        i = i + 1;
    }
    assert(!exists|k: int| is_first_field(fs, name@, k));
    None
}

/// Reads a stream entry as a job: the target from the `url` field and the
/// site identity from the `id` field; an entry missing either is malformed.
pub fn parse_job(fields: &Vec<(String, String)>) -> (r: Result<CheckJob, EntryError>)
    ensures
        r matches Ok(job) ==> spec_parse_job(fields_view(fields@)) == Ok::<_, EntryError>((job.url@, job.site_id@)),
        r matches Err(e) ==> spec_parse_job(fields_view(fields@)) == Err::<(Seq<char>, Seq<char>), _>(e),
{
    let url_key = "url".to_owned();
    let id_key = "id".to_owned();
    match find_field(fields, &url_key) {
        None => Err(EntryError::MissingUrl),
        Some(url) => match find_field(fields, &id_key) {
            None => Err(EntryError::MissingId),
            Some(site_id) => Ok(CheckJob { url, site_id }),
        },
    }
}

} // verus!
