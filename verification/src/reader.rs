use vstd::prelude::*;

verus! {

/// The position of the last separator strictly before `e`, or -1.
pub open spec fn rfind_slash(s: Seq<char>, e: int) -> int
    decreases e when 0 <= e <= s.len()
{
    if e <= 0 {
        -1
    } else if s[e - 1] == '/' {
        e - 1
    } else {
        rfind_slash(s, e - 1)
    }
}

/// The name of the directory a file path stands in: the component before
/// the file's own. A path without one yields nothing.
pub open spec fn project_name_spec(s: Seq<char>) -> Option<Seq<char>> {
    let p = rfind_slash(s, s.len() as int);
    if p < 0 {
        None
    } else {
        let q = rfind_slash(s, p);
        if !(-1 <= q < p) {
            None
        } else {
            let name = s.subrange(q + 1, p);
            if name.len() == 0 {
                None
            } else {
                Some(name)
            }
        }
    }
}

/// Finds conversation sources: it stands for the directory the external
/// chat tool writes its per-project logs under.
#[derive(Debug)]
pub struct ClaudeReader {
    pub claude_projects_path: String,
}

impl ClaudeReader {
    /// A reader over the given projects directory.
    pub fn with_projects_path(path: String) -> (r: Self)
        ensures
            r.claude_projects_path@ == path@,
    {
        ClaudeReader { claude_projects_path: path }
    }

    /// The directory the reader looks under.
    pub fn projects_path(&self) -> (r: &str)
        ensures
            r@ == self.claude_projects_path@,
    {
        self.claude_projects_path.as_str()
    }

    /// The project a log file belongs to: the name of the directory the
    /// file stands in.
    pub fn get_project_name_from_path(&self, jsonl_path: &str) -> (r: Option<String>)
        ensures
            r.is_some() <==> project_name_spec(jsonl_path@).is_some(),
            r.is_some() ==> Some(r.unwrap()@) == project_name_spec(jsonl_path@),
    {
        let v = crate::json_text::str_to_chars(jsonl_path);
        let p = rfind_slash_exec(&v, v.len());
        match p {
            None => None,
            Some(p) => {
                let q = rfind_slash_exec(&v, p);
                let start = match q {
                    None => 0,
                    Some(q) => q + 1,
                };
                if start >= p {
                    None
                } else {
                    Some(crate::json_text::chars_to_string(&v, start, p))
                }
            },
        }
    }
}

/// Finds the last separator strictly before `e`.
fn rfind_slash_exec(v: &Vec<char>, e: usize) -> (r: Option<usize>)
    requires
        e <= v@.len(),
    ensures
        r.is_none() ==> rfind_slash(v@, e as int) == -1,
        r.is_some() ==> r.unwrap() as int == rfind_slash(v@, e as int) && r.unwrap() < e,
{
    let mut k: usize = e;
    while k > 0
        invariant
            k <= e <= v@.len(),
            rfind_slash(v@, e as int) == rfind_slash(v@, k as int),
        decreases k,
    {
        if v[k - 1] == '/' {
            return Some(k - 1);
        }
        k = k - 1;
    }
    None
}

} // verus!
