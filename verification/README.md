# git-las

A workspace of git repositories mirrored across several hosting providers
(GitHub, GitLab, Gitea, Bitbucket). The workspace directory `.gitlas/` holds a
`config.toml` that declares the global remotes, the tracked repos with their
primary (pull) remote and push remotes, and the meta-repo, which is the
`.gitlas/` directory itself.

- `src/` is the verified library: the configuration model (`types`, kept in
  `strmap` tables with unique keys), its validation (`validate`), the
  resolution of remotes into clone URLs and of repos into paths (`resolve`),
  the edits of a workspace (`workspace`, `secrets`), what each command decides
  and reports (`cmd`), the token lookup in the providers' tool configurations
  (`providers`), and the text operations these need (`text`, `git`).
  Properties that relate several operations are proved in `laws`.
- `app/` is the `git las` program around it: argument parsing, finding the
  workspace, reading and writing the TOML files, and running git.
- `tests/` exercise the library on concrete values.
