# action-pull-request-lock

The logic of a GitHub/Gitea action that locks the conversation of a pull
request, written in Verus and proved against its contracts.

- `src/` is the verified library:
  - `inputs`: input names in the environment, in-memory input sources, the
    lock reasons and the checks that turn raw input values into typed inputs;
  - `number`: parsing and writing unsigned decimal numbers;
  - `text`: character-level string helpers (comparison, trimming, replacing);
  - `forge`: the lock endpoint's route, the judgement of its answer, the
    failure messages and the choice between GitHub and Gitea;
  - `action`: the lock call a run makes and what its answer makes of the run.
- `app/` is the unverified shell: environment access, the HTTP clients built
  on `octocrab`, and the asynchronous `run`.
- `tests/` exercises the library on concrete values.
