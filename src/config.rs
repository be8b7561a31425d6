//! Post metadata records and the layered merge between them.

use vstd::prelude::*;

verus! {

/// One record type serves the global configuration, a post's header and the
/// resolved metadata of a post: every field is optional.
#[derive(Debug, Clone)]
pub struct BlogConfig {
    pub title: Option<String>,
    pub description: Option<String>,
    pub tags: Option<Vec<String>>,
    pub date_written: Option<String>,
    pub date_updated: Option<String>,
    pub blog_file_name: Option<String>,
    pub published_time_iso: Option<String>,
    pub modified_time_iso: Option<String>,
    pub author_name: Option<String>,
    pub author_url: Option<String>,
    pub author_email: Option<String>,
    pub author_projects_url: Option<String>,
    pub blog_name: Option<String>,
    pub blog_home_url: Option<String>,
    pub blog_description: Option<String>,
}

/// The mathematical content of a `BlogConfig`.
pub ghost struct ConfigView {
    pub title: Option<Seq<char>>,
    pub description: Option<Seq<char>>,
    pub tags: Option<Seq<Seq<char>>>,
    pub date_written: Option<Seq<char>>,
    pub date_updated: Option<Seq<char>>,
    pub blog_file_name: Option<Seq<char>>,
    pub published_time_iso: Option<Seq<char>>,
    pub modified_time_iso: Option<Seq<char>>,
    pub author_name: Option<Seq<char>>,
    pub author_url: Option<Seq<char>>,
    pub author_email: Option<Seq<char>>,
    pub author_projects_url: Option<Seq<char>>,
    pub blog_name: Option<Seq<char>>,
    pub blog_home_url: Option<Seq<char>>,
    pub blog_description: Option<Seq<char>>,
}

pub open spec fn opt_view(o: Option<String>) -> Option<Seq<char>> {
    match o {
        Some(s) => Some(s@),
        None => None,
    }
}

pub open spec fn strings_view(v: Seq<String>) -> Seq<Seq<char>> {
    v.map_values(|s: String| s@)
}

pub open spec fn opt_tags_view(o: Option<Vec<String>>) -> Option<Seq<Seq<char>>> {
    match o {
        Some(v) => Some(strings_view(v@)),
        None => None,
    }
}

/// `top` if it is set, else `base`.
pub open spec fn or_else<T>(top: Option<T>, base: Option<T>) -> Option<T> {
    match top {
        Some(x) => Some(x),
        None => base,
    }
}

impl View for BlogConfig {
    type V = ConfigView;

    open spec fn view(&self) -> ConfigView {
        ConfigView {
            title: opt_view(self.title),
            description: opt_view(self.description),
            tags: opt_tags_view(self.tags),
            date_written: opt_view(self.date_written),
            date_updated: opt_view(self.date_updated),
            blog_file_name: opt_view(self.blog_file_name),
            published_time_iso: opt_view(self.published_time_iso),
            modified_time_iso: opt_view(self.modified_time_iso),
            author_name: opt_view(self.author_name),
            author_url: opt_view(self.author_url),
            author_email: opt_view(self.author_email),
            author_projects_url: opt_view(self.author_projects_url),
            blog_name: opt_view(self.blog_name),
            blog_home_url: opt_view(self.blog_home_url),
            blog_description: opt_view(self.blog_description),
        }
    }
}

impl ConfigView {
    /// Every field unset.
    pub open spec fn empty() -> ConfigView {
        ConfigView {
            title: None,
            description: None,
            tags: None,
            date_written: None,
            date_updated: None,
            blog_file_name: None,
            published_time_iso: None,
            modified_time_iso: None,
            author_name: None,
            author_url: None,
            author_email: None,
            author_projects_url: None,
            blog_name: None,
            blog_home_url: None,
            blog_description: None,
        }
    }

    /// `top` laid over `self`: each field that `top` sets wins, the others
    /// keep their value. The two ISO timestamps are computed, never layered.
    pub open spec fn overlay(self, top: ConfigView) -> ConfigView {
        ConfigView {
            title: or_else(top.title, self.title),
            description: or_else(top.description, self.description),
            tags: or_else(top.tags, self.tags),
            date_written: or_else(top.date_written, self.date_written),
            date_updated: or_else(top.date_updated, self.date_updated),
            blog_file_name: or_else(top.blog_file_name, self.blog_file_name),
            published_time_iso: self.published_time_iso,
            modified_time_iso: self.modified_time_iso,
            author_name: or_else(top.author_name, self.author_name),
            author_url: or_else(top.author_url, self.author_url),
            author_email: or_else(top.author_email, self.author_email),
            author_projects_url: or_else(top.author_projects_url, self.author_projects_url),
            blog_name: or_else(top.blog_name, self.blog_name),
            blog_home_url: or_else(top.blog_home_url, self.blog_home_url),
            blog_description: or_else(top.blog_description, self.blog_description),
        }
    }
}

pub fn clone_opt_string(o: &Option<String>) -> (r: Option<String>)
    ensures
        opt_view(r) == opt_view(*o),
{
    match o {
        Some(s) => Some(s.clone()),
        None => None,
    }
}

pub fn clone_strings(v: &Vec<String>) -> (r: Vec<String>)
    ensures
        strings_view(r@) == strings_view(v@),
{
    let mut r: Vec<String> = Vec::new();
    let mut i: usize = 0;
    while i < v.len()
        invariant
            i <= v@.len(),
            strings_view(r@) == strings_view(v@.take(i as int)),
        decreases v.len() - i,
    {
        r.push(v[i].clone());
        assert(strings_view(v@.take(i + 1)) =~= strings_view(v@.take(i as int)).push(v@[i as int]@));
        assert(strings_view(r@) =~= strings_view(v@.take(i as int)).push(v@[i as int]@));
        i = i + 1;
    }
    assert(v@.take(v@.len() as int) =~= v@);
    r
}

impl BlogConfig {
    /// A record with every field unset.
    pub fn new() -> (r: BlogConfig)
        ensures
            r@ == ConfigView::empty(),
    {
        BlogConfig {
            title: None,
            description: None,
            tags: None,
            date_written: None,
            date_updated: None,
            blog_file_name: None,
            published_time_iso: None,
            modified_time_iso: None,
            author_name: None,
            author_url: None,
            author_email: None,
            author_projects_url: None,
            blog_name: None,
            blog_home_url: None,
            blog_description: None,
        }
    }

    /// A copy with the same content.
    pub fn duplicate(&self) -> (r: BlogConfig)
        ensures
            r@ == self@,
    {
        let tags = match &self.tags {
            Some(t) => Some(clone_strings(t)),
            None => None,
        };
        BlogConfig {
            title: clone_opt_string(&self.title),
            description: clone_opt_string(&self.description),
            tags,
            date_written: clone_opt_string(&self.date_written),
            date_updated: clone_opt_string(&self.date_updated),
            blog_file_name: clone_opt_string(&self.blog_file_name),
            published_time_iso: clone_opt_string(&self.published_time_iso),
            modified_time_iso: clone_opt_string(&self.modified_time_iso),
            author_name: clone_opt_string(&self.author_name),
            author_url: clone_opt_string(&self.author_url),
            author_email: clone_opt_string(&self.author_email),
            author_projects_url: clone_opt_string(&self.author_projects_url),
            blog_name: clone_opt_string(&self.blog_name),
            blog_home_url: clone_opt_string(&self.blog_home_url),
            blog_description: clone_opt_string(&self.blog_description),
        }
    }

    /// Lays every field that `other` sets over `self`; fields that `other`
    /// leaves unset never erase a value of `self`.
    pub fn apply(&mut self, other: BlogConfig)
        ensures
            final(self)@ == old(self)@.overlay(other@),
    {
        if let Some(s) = other.title {
            self.title = Some(s);
        }
        if let Some(s) = other.description {
            self.description = Some(s);
        }
        if let Some(t) = other.tags {
            self.tags = Some(t);
        }
        if let Some(s) = other.date_written {
            self.date_written = Some(s);
        }
        if let Some(s) = other.date_updated {
            self.date_updated = Some(s);
        }
        if let Some(s) = other.author_name {
            self.author_name = Some(s);
        }
        if let Some(s) = other.author_url {
            self.author_url = Some(s);
        }
        if let Some(s) = other.author_email {
            self.author_email = Some(s);
        }
        if let Some(s) = other.author_projects_url {
            self.author_projects_url = Some(s);
        }
        if let Some(s) = other.blog_name {
            self.blog_name = Some(s);
        }
        if let Some(s) = other.blog_home_url {
            self.blog_home_url = Some(s);
        }
        if let Some(s) = other.blog_file_name {
            self.blog_file_name = Some(s);
        }
        if let Some(s) = other.blog_description {
            self.blog_description = Some(s);
        }
    }
}

impl Default for BlogConfig {
    fn default() -> (r: BlogConfig)
        ensures
            r@ == ConfigView::empty(),
    {
        BlogConfig::new()
    }
}

/// What version control knows of one tracked post file.
#[derive(Debug, Clone)]
pub struct BlogFile {
    /// Repository-relative path; the post's key.
    pub path_from_root: String,
    /// Unix time of the first commit, or 0 when unknown.
    pub written: i64,
    /// Unix time of the latest commit, or 0 when unknown.
    pub updated: i64,
    /// Author of the commit read last.
    pub git_author_name: String,
}

/// Why a step of the pipeline failed.
#[derive(Debug, Clone)]
pub enum BlogError {
    /// No title in the header nor in the global configuration; holds the post path.
    MissingTitle(String),
    /// No commit of the post was found; holds the post path.
    MissingCommitHistory(String),
    /// Any other failure, with its message.
    Other(String),
}

/// An error that carries `message`.
pub fn new_err(message: &str) -> (r: BlogError)
    ensures
        r matches BlogError::Other(m) && m@ == message@,
{
    BlogError::Other(message.to_owned())
}

} // verus!
